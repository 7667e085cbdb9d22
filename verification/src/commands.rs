use vstd::prelude::*;
use tokio::sync::watch;
use tokio_util::sync::CancellationToken;
use crate::network::{
    calculate_chunks, can_split, chunk_plan, header_says_bytes, header_text, HeaderList,
};
use crate::state::{DownloadControl, DownloadRegistry};
use crate::text::{
    after_last, before_first, lemma_after_last_is_clean_suffix, lemma_after_last_of_join,
    lemma_before_first_absent, lemma_before_first_is_clean_prefix, lemma_before_first_of_join,
    text_after_last, text_before_first,
};
use crate::types::Chunk;

verus! {

/// Calls `CancellationToken::new`: a fresh token, not yet cancelled (not
/// stated: a token's state cannot be seen from verified code).
#[verifier::external_body]
fn new_cancel_token() -> CancellationToken {
    CancellationToken::new()
}

/// Calls `CancellationToken::clone`: a handle to the same shared token
/// (the clone holds the same inner `Arc`), so the two are one token.
#[verifier::external_body]
fn clone_token(token: &CancellationToken) -> (r: CancellationToken)
    ensures
        r == *token,
{
    token.clone()
}

/// Calls `tokio::sync::watch::channel` with the given first value. The two
/// ends share one value, which cannot be seen from verified code.
#[verifier::external_body]
fn pause_channel(initial: bool) -> (watch::Sender<bool>, watch::Receiver<bool>) {
    watch::channel(initial)
}

/// The lowercase hexadecimal digit for `n` (`0 <= n < 16`).
pub open spec fn hex_digit(n: int) -> char {
    if n < 10 {
        (n + 48) as char
    } else {
        (n + 87) as char
    }
}

/// Two lowercase hexadecimal digits per byte, high half first.
pub open spec fn hex_text(b: Seq<u8>) -> Seq<char>
    decreases b.len(),
{
    if b.len() == 0 {
        Seq::empty()
    } else {
        seq![hex_digit(b[0] as int / 16), hex_digit(b[0] as int % 16)] + hex_text(b.drop_first())
    }
}

/// The bytes of a random (version 4, RFC 4122 variant) UUID made from
/// 16 random bytes: the high half of byte 6 becomes 4 and the two high
/// bits of byte 8 become `10`.
pub open spec fn version4_bytes(b: Seq<u8>) -> Seq<u8> {
    b.update(6, (b[6] & 0x0f) | 0x40).update(8, (b[8] & 0x3f) | 0x80)
}

/// The hyphenated form of 16 UUID bytes: hex digits in groups of
/// 8-4-4-4-12 characters.
pub open spec fn hyphenated(b: Seq<u8>) -> Seq<char> {
    hex_text(b.subrange(0, 4)) + "-"@ + hex_text(b.subrange(4, 6)) + "-"@ + hex_text(
        b.subrange(6, 8),
    ) + "-"@ + hex_text(b.subrange(8, 10)) + "-"@ + hex_text(b.subrange(10, 16))
}

/// The id of a download made from 16 random bytes.
pub open spec fn download_id_text(random_bytes: Seq<u8>) -> Seq<char> {
    hyphenated(version4_bytes(random_bytes))
}

/// Calls `uuid::Builder::from_random_bytes(..).into_uuid()` and writes the
/// UUID out with `to_string`: the version and variant bits are set as
/// `version4_bytes` says, and the text is the lowercase hyphenated form.
#[verifier::external_body]
fn uuid_text_from_random_bytes(random_bytes: [u8; 16]) -> (id: String)
    ensures
        id@ == download_id_text(random_bytes@),
{
    uuid::Builder::from_random_bytes(random_bytes).into_uuid().to_string()
}

proof fn lemma_hex_text_len(b: Seq<u8>)
    ensures
        hex_text(b).len() == 2 * b.len(),
    decreases b.len(),
{
    if b.len() > 0 {
        lemma_hex_text_len(b.drop_first());
    }
}

/// A download id has 36 characters, with `-` at positions 8, 13, 18, 23.
pub proof fn lemma_download_id_shape(random_bytes: Seq<u8>)
    requires
        random_bytes.len() == 16,
    ensures
        download_id_text(random_bytes).len() == 36,
        download_id_text(random_bytes)[8] == '-',
        download_id_text(random_bytes)[13] == '-',
        download_id_text(random_bytes)[18] == '-',
        download_id_text(random_bytes)[23] == '-',
{
    reveal_strlit("-");
    let b = version4_bytes(random_bytes);
    lemma_hex_text_len(b.subrange(0, 4));
    lemma_hex_text_len(b.subrange(4, 6));
    lemma_hex_text_len(b.subrange(6, 8));
    lemma_hex_text_len(b.subrange(8, 10));
    lemma_hex_text_len(b.subrange(10, 16));
}

/// The message of a request about an id that is not registered.
pub open spec fn not_found_text() -> Seq<char> {
    "Download not found"@
}

/// Whether a request about `download_id` finds nothing registered.
pub open spec fn is_unknown(registry: Map<Seq<char>, DownloadControl>, download_id: Seq<char>) -> bool {
    !registry.dom().contains(download_id)
}

/// Whether an answer is the refusal `Download not found`.
pub open spec fn refused_as_unknown<T>(r: Result<T, String>) -> bool {
    r matches Err(m) && m@ == not_found_text()
}

fn not_found<T>() -> (r: Result<T, String>)
    ensures
        refused_as_unknown(r),
{
    Err(String::from_str("Download not found"))
}

/// Unregisters the download `download_id` and hands back its cancellation
/// token, the one its tasks watch, for the caller to cancel. Fails with
/// `Download not found` when no such download is registered.
pub fn cancel_download(download_id: String, registry: &mut DownloadRegistry) -> (r: Result<
    CancellationToken,
    String,
>)
    ensures
        final(registry)@ == old(registry)@.remove(download_id@),
        r is Ok <==> !is_unknown(old(registry)@, download_id@),
        refused_as_unknown(r) <==> is_unknown(old(registry)@, download_id@),
        r matches Ok(t) ==> t == old(registry)@[download_id@].cancel_token,
{
    match registry.remove(download_id.as_str()) {
        Some(ctrl) => Ok(ctrl.cancel_token),
        None => not_found(),
    }
}

/// Once a download is cancelled (the registry becomes the old one without
/// it), its id is unknown, so every later cancel, pause or resume of it is
/// refused as `Download not found`, while every other registered download
/// stays known.
pub proof fn lemma_cancelled_download_is_forgotten(
    before: Map<Seq<char>, DownloadControl>,
    download_id: Seq<char>,
)
    ensures
        is_unknown(before.remove(download_id), download_id),
        forall|k: Seq<char>|
            k != download_id && !is_unknown(before, k) ==> !#[trigger] is_unknown(
                before.remove(download_id),
                k,
            ),
{
}

/// The pause flag of `download_id` and the value to set it to.
fn pause_order<'a>(download_id: &str, registry: &'a DownloadRegistry, paused: bool) -> (r: Result<
    (&'a watch::Sender<bool>, bool),
    String,
>)
    ensures
        r is Ok <==> !is_unknown(registry@, download_id@),
        refused_as_unknown(r) <==> is_unknown(registry@, download_id@),
        r matches Ok((tx, v)) ==> *tx == registry@[download_id@].pause_tx && v == paused,
{
    match registry.get(download_id) {
        Some(ctrl) => Ok((&ctrl.pause_tx, paused)),
        None => not_found(),
    }
}

/// Pausing the download `download_id`: its pause flag, to be set to
/// `true` by the caller. Fails with `Download not found` when it is not
/// registered.
pub fn pause_download(download_id: String, registry: &DownloadRegistry) -> (r: Result<
    (&watch::Sender<bool>, bool),
    String,
>)
    ensures
        r is Ok <==> !is_unknown(registry@, download_id@),
        refused_as_unknown(r) <==> is_unknown(registry@, download_id@),
        r matches Ok((tx, v)) ==> *tx == registry@[download_id@].pause_tx && v == true,
{
    pause_order(download_id.as_str(), registry, true)
}

/// Resuming the download `download_id`: its pause flag, to be set to
/// `false` by the caller. Fails as `pause_download` does.
pub fn resume_download(download_id: String, registry: &DownloadRegistry) -> (r: Result<
    (&watch::Sender<bool>, bool),
    String,
>)
    ensures
        r is Ok <==> !is_unknown(registry@, download_id@),
        refused_as_unknown(r) <==> is_unknown(registry@, download_id@),
        r matches Ok((tx, v)) ==> *tx == registry@[download_id@].pause_tx && v == false,
{
    pause_order(download_id.as_str(), registry, false)
}

/// Pausing and then resuming a download address the same pause flag (the
/// one registered for it) with opposite values, `true` then `false`, and
/// neither changes the registry.
pub proof fn lemma_pause_resume_round_trip(
    registry: Map<Seq<char>, DownloadControl>,
    download_id: Seq<char>,
    pause_tx: watch::Sender<bool>,
    paused: bool,
    resume_tx: watch::Sender<bool>,
    resumed: bool,
)
    requires
        !is_unknown(registry, download_id),
        pause_tx == registry[download_id].pause_tx && paused == true,
        resume_tx == registry[download_id].pause_tx && resumed == false,
    ensures
        pause_tx == resume_tx,
        paused != resumed,
        !resumed,
{
}

/// How long a chunk task waits before going on when its download is
/// paused, in milliseconds.
pub fn pause_wait_millis(paused: bool) -> (ms: u64)
    ensures
        ms == (if paused { 200u64 } else { 0u64 }),
{
    if paused {
        200
    } else {
        0
    }
}

/// Registers a new download under `download_id`, not paused, and hands
/// back the handles its tasks watch: the very token stored for it, and the
/// receiving end of its pause flag.
pub fn register_download(registry: &mut DownloadRegistry, download_id: String) -> (r: (
    CancellationToken,
    watch::Receiver<bool>,
))
    ensures
        final(registry)@.dom() == old(registry)@.dom().insert(download_id@),
        final(registry)@[download_id@].cancel_token == r.0,
        forall|k: Seq<char>|
            k != download_id@ && #[trigger] old(registry)@.dom().contains(k)
                ==> final(registry)@[k] == old(registry)@[k],
{
    let cancel = new_cancel_token();
    let (pause_tx, pause_rx) = pause_channel(false);
    let control = DownloadControl { cancel_token: clone_token(&cancel), pause_tx };
    registry.insert(download_id, control);
    (cancel, pause_rx)
}

/// The file name a URL points at: the text after its last `/`, cut at the
/// first `?`.
pub open spec fn url_file_name(url: Seq<char>) -> Seq<char> {
    before_first(after_last(url, '/'), '?')
}

/// The file name a URL points at (see `url_file_name`).
pub fn filename_from_url(url: &str) -> (r: String)
    ensures
        r@ == url_file_name(url@),
{
    String::from_str(text_before_first(text_after_last(url, '/'), '?'))
}

/// The file name taken from a URL holds neither `/` nor `?`, and is a
/// piece of the URL itself.
pub proof fn lemma_url_file_name_is_clean(url: Seq<char>)
    ensures
        forall|i: int|
            0 <= i < url_file_name(url).len() ==> #[trigger] url_file_name(url)[i] != '/'
                && url_file_name(url)[i] != '?',
        url_file_name(url).len() <= url.len(),
{
    let tail = after_last(url, '/');
    lemma_after_last_is_clean_suffix(url, '/');
    lemma_before_first_is_clean_prefix(tail, '?');
    assert forall|i: int| 0 <= i < url_file_name(url).len() implies #[trigger] url_file_name(url)[i] != '/'
        && url_file_name(url)[i] != '?' by {
        assert(url_file_name(url)[i] == tail.take(url_file_name(url).len() as int)[i]);
    }
}

/// The file name of `<anything>/<name>?<query>` is `<name>`, for a name of
/// any length without `/` or `?` and a query without `/`.
pub proof fn lemma_url_file_name_with_query(a: Seq<char>, f: Seq<char>, q: Seq<char>)
    requires
        forall|i: int| 0 <= i < f.len() ==> #[trigger] f[i] != '/' && f[i] != '?',
        forall|i: int| 0 <= i < q.len() ==> #[trigger] q[i] != '/',
    ensures
        url_file_name(a + "/"@ + f + "?"@ + q) == f,
{
    reveal_strlit("/");
    reveal_strlit("?");
    let head = a + "/"@;
    let tail = f + ("?"@ + q);
    assert(a + "/"@ + f + "?"@ + q =~= head + tail);
    assert forall|i: int| 0 <= i < tail.len() implies #[trigger] tail[i] != '/' by {
        if i < f.len() {
            assert(tail[i] == f[i]);
        } else if i > f.len() {
            assert(tail[i] == q[i - f.len() - 1]);
        }
    }
    lemma_after_last_of_join(head, tail, '/');
    lemma_before_first_of_join(f, "?"@ + q, '?');
}

/// The file name of `<anything>/<name>` is `<name>`, for a name of any
/// length without `/` or `?`.
pub proof fn lemma_url_file_name_plain(a: Seq<char>, f: Seq<char>)
    requires
        forall|i: int| 0 <= i < f.len() ==> #[trigger] f[i] != '/' && f[i] != '?',
    ensures
        url_file_name(a + "/"@ + f) == f,
{
    reveal_strlit("/");
    assert forall|i: int| 0 <= i < f.len() implies #[trigger] f[i] != '/' by {}
    lemma_after_last_of_join(a + "/"@, f, '/');
    assert forall|i: int| 0 <= i < f.len() implies #[trigger] f[i] != '?' by {}
    lemma_before_first_absent(f, '?');
}

/// The name to save under: the one the user gave, else the one in the URL.
pub open spec fn chosen_name(url: Seq<char>, filename: Option<String>) -> Seq<char> {
    match filename {
        Some(f) => f@,
        None => url_file_name(url),
    }
}

/// Where a file is saved: the folder, a backslash, the file name.
pub open spec fn save_location(output_path: Seq<char>, filename: Seq<char>) -> Seq<char> {
    output_path + "\\"@ + filename
}

/// A save location starts with the folder, then one backslash, then ends
/// with the file name, and holds nothing else.
pub proof fn lemma_save_location_parts(output_path: Seq<char>, filename: Seq<char>)
    ensures
        save_location(output_path, filename).len() == output_path.len() + 1 + filename.len(),
        save_location(output_path, filename).take(output_path.len() as int) == output_path,
        save_location(output_path, filename)[output_path.len() as int] == '\\',
        save_location(output_path, filename).skip(output_path.len() as int + 1) == filename,
{
    reveal_strlit("\\");
    let s = save_location(output_path, filename);
    assert(s.take(output_path.len() as int) =~= output_path);
    assert(s.skip(output_path.len() as int + 1) =~= filename);
}

/// Joins a folder and a file name with a backslash.
pub fn join_save_path(output_path: &str, filename: &str) -> (r: String)
    ensures
        r@ == save_location(output_path@, filename@),
{
    let mut r = String::from_str(output_path);
    r.append("\\");
    r.append(filename);
    r
}

/// Everything decided before the tasks of a download start: its id, the
/// name and full path it is saved under, and its byte ranges.
pub struct DownloadPlan {
    pub download_id: String,
    pub filename: String,
    pub full_path: String,
    pub chunks: Vec<Chunk>,
}

/// Plans the download of `url` (a file of `file_size` bytes) into the
/// folder `output_path` with `threads` tasks, under the id made from
/// `random_bytes`.
pub fn prepare_download(
    url: &str,
    filename: Option<String>,
    output_path: &str,
    threads: usize,
    file_size: u64,
    random_bytes: [u8; 16],
) -> (p: DownloadPlan)
    requires
        can_split(file_size, threads),
    ensures
        p.filename@ == chosen_name(url@, filename),
        p.full_path@ == save_location(output_path@, chosen_name(url@, filename)),
        p.chunks@ == chunk_plan(file_size, threads),
        p.download_id@ == download_id_text(random_bytes@),
{
    let download_id = uuid_text_from_random_bytes(random_bytes);
    let actual_filename = match filename {
        Some(f) => f,
        None => filename_from_url(url),
    };
    let full_path = join_save_path(output_path, actual_filename.as_str());
    let chunks = calculate_chunks(file_size, threads);
    DownloadPlan { download_id, filename: actual_filename, full_path, chunks }
}

/// Plans a download as `prepare_download` does, or answers `None` when
/// the file cannot be cut into `threads` non-empty ranges (no thread, or
/// more threads than bytes).
pub fn try_prepare_download(
    url: &str,
    filename: Option<String>,
    output_path: &str,
    threads: usize,
    file_size: u64,
    random_bytes: [u8; 16],
) -> (p: Option<DownloadPlan>)
    ensures
        p is None <==> !can_split(file_size, threads),
        p is None <==> (threads == 0 || threads > file_size),
        p matches Some(p) ==> {
            &&& p.filename@ == chosen_name(url@, filename)
            &&& p.full_path@ == save_location(output_path@, chosen_name(url@, filename))
            &&& p.chunks@ == chunk_plan(file_size, threads)
            &&& p.download_id@ == download_id_text(random_bytes@)
        },
{
    if threads == 0 || threads as u64 > file_size {
        None
    } else {
        Some(prepare_download(url, filename, output_path, threads, file_size, random_bytes))
    }
}

/// Counts the chunks of a download that have finished, so that exactly the
/// task finishing the last one records the download as complete.
pub struct CompletionCounter {
    completed: usize,
    total: usize,
}

impl CompletionCounter {
    /// Chunks finished so far.
    pub closed spec fn completed(&self) -> nat {
        self.completed as nat
    }

    /// Chunks of the download.
    pub closed spec fn total(&self) -> nat {
        self.total as nat
    }

    /// A counter for a download of `total` chunks, none finished.
    pub fn new(total: usize) -> (c: Self)
        ensures
            c.completed() == 0,
            c.total() == total,
    {
        CompletionCounter { completed: 0, total }
    }

    /// Chunks finished so far.
    pub fn completed_count(&self) -> (n: usize)
        ensures
            n == self.completed(),
    {
        self.completed
    }

    /// Records one more finished chunk; answers whether it was the last one
    /// (the count now equals the number of chunks).
    pub fn record_chunk_done(&mut self) -> (finished: bool)
        requires
            old(self).completed() < usize::MAX,
        ensures
            final(self).completed() == old(self).completed() + 1,
            final(self).total() == old(self).total(),
            finished == finishes_download(old(self).completed(), old(self).total()),
    {
        let prev = self.completed;
        self.completed = prev + 1;
        prev + 1 == self.total
    }
}

/// Whether finishing one more chunk, after `completed_before` of `total`,
/// completes the download.
pub open spec fn finishes_download(completed_before: nat, total: nat) -> bool {
    completed_before + 1 == total
}

/// Of the `total` chunk completions of a download (after 0, 1, ...,
/// `total - 1` earlier ones), exactly one completes it: the last.
pub proof fn lemma_only_last_chunk_finishes(total: nat)
    requires
        1 <= total,
    ensures
        finishes_download((total - 1) as nat, total),
        forall|c: nat| c < total - 1 ==> !#[trigger] finishes_download(c, total),
{
}

/// Facts about a file as the info panel shows them.
#[derive(Debug, Clone)]
pub struct FileInfo {
    pub size: String,
    pub content_type: String,
    pub accepts_range: bool,
    pub last_modified: String,
}

/// A header's text, or `Unknown` when it is missing or not text.
pub open spec fn text_or_unknown(t: Option<Seq<char>>) -> Seq<char> {
    match t {
        Some(v) => v,
        None => "Unknown"@,
    }
}

fn header_or_unknown(headers: &HeaderList, name: &str) -> (r: String)
    ensures
        r@ == text_or_unknown(header_text(headers.entries@, name@)),
{
    match headers.text_of(name) {
        Some(v) => v,
        None => String::from_str("Unknown"),
    }
}

/// What the info panel shows for a `HEAD` response: the size text (the
/// caller formats the announced size, if any), the `content-type` and
/// `last-modified` headers (`Unknown` when missing), and whether
/// `accept-ranges` says `bytes`.
pub fn file_info_from_headers(headers: &HeaderList, size_text: Option<String>) -> (info: FileInfo)
    ensures
        info.size@ == text_or_unknown(crate::network::opt_text(size_text)),
        info.content_type@ == text_or_unknown(header_text(headers.entries@, "content-type"@)),
        info.accepts_range == header_says_bytes(headers.entries@, "accept-ranges"@),
        info.last_modified@ == text_or_unknown(header_text(headers.entries@, "last-modified"@)),
{
    let size = match size_text {
        Some(s) => s,
        None => String::from_str("Unknown"),
    };
    let content_type = header_or_unknown(headers, "content-type");
    let accepts_range = crate::network::header_is_bytes(headers, "accept-ranges");
    let last_modified = header_or_unknown(headers, "last-modified");
    FileInfo { size, content_type, accepts_range, last_modified }
}

} // verus!
