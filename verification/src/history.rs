use vstd::prelude::*;
use crate::text::{after_last, same_text, text_after_last};

verus! {

/// One finished download, as kept in the history (latest first).
#[derive(Debug, Clone)]
pub struct HistoryEntry {
    pub id: String,
    pub filename: String,
    pub url: String,
    pub file_size: u64,
    pub save_path: String,
    pub file_type: String,
    pub completed_at: String,
}

/// Name for what `str::to_lowercase` returns for a text: each character
/// replaced by its Unicode lowercase mapping.
pub uninterp spec fn unicode_lowercase(s: Seq<char>) -> Seq<char>;

/// Whether every character of `s` is ASCII.
pub open spec fn all_ascii(s: Seq<char>) -> bool {
    forall|i: int| 0 <= i < s.len() ==> (#[trigger] s[i]) as int <= 127
}

/// `A`..`Z` become `a`..`z`; every other character stays.
pub open spec fn lower_char(c: char) -> char {
    if 65 <= c as int <= 90 {
        (c as int + 32) as char
    } else {
        c
    }
}

/// `a`..`z` become `A`..`Z`; every other character stays.
pub open spec fn upper_char(c: char) -> char {
    if 97 <= c as int <= 122 {
        (c as int - 32) as char
    } else {
        c
    }
}

/// ASCII lowercasing of a text.
pub open spec fn ascii_lowercase(s: Seq<char>) -> Seq<char> {
    s.map_values(|c: char| lower_char(c))
}

/// ASCII uppercasing of a text.
pub open spec fn ascii_uppercase(s: Seq<char>) -> Seq<char> {
    s.map_values(|c: char| upper_char(c))
}

/// The category of a file name with ASCII lowercasing of its extension.
pub open spec fn ascii_category(filename: Seq<char>) -> Seq<char> {
    category_of(ascii_lowercase(after_last(filename, '.')))
}

proof fn lemma_after_last_lowercase(s: Seq<char>)
    ensures
        after_last(ascii_lowercase(s), '.') == ascii_lowercase(after_last(s, '.')),
    decreases s.len(),
{
    if s.len() > 0 {
        assert(ascii_lowercase(s).drop_last() =~= ascii_lowercase(s.drop_last()));
        lemma_after_last_lowercase(s.drop_last());
        if s.last() != '.' {
            assert(ascii_lowercase(after_last(s.drop_last(), '.')).push(lower_char(s.last()))
                =~= ascii_lowercase(after_last(s.drop_last(), '.').push(s.last())));
        } else {
            assert(ascii_lowercase(Seq::<char>::empty()) =~= Seq::<char>::empty());
        }
    }
}

proof fn lemma_after_last_uppercase(s: Seq<char>)
    ensures
        after_last(ascii_uppercase(s), '.') == ascii_uppercase(after_last(s, '.')),
    decreases s.len(),
{
    if s.len() > 0 {
        assert(ascii_uppercase(s).drop_last() =~= ascii_uppercase(s.drop_last()));
        lemma_after_last_uppercase(s.drop_last());
        if s.last() != '.' {
            assert(ascii_uppercase(after_last(s.drop_last(), '.')).push(upper_char(s.last()))
                =~= ascii_uppercase(after_last(s.drop_last(), '.').push(s.last())));
        } else {
            assert(ascii_uppercase(Seq::<char>::empty()) =~= Seq::<char>::empty());
        }
    }
}

/// The category ignores the case of ASCII letters: uppercasing or
/// lowercasing the ASCII letters of a name leaves its category unchanged,
/// and keeps an ASCII extension ASCII.
pub proof fn lemma_category_ignores_ascii_case(filename: Seq<char>)
    ensures
        ascii_category(ascii_uppercase(filename)) == ascii_category(filename),
        ascii_category(ascii_lowercase(filename)) == ascii_category(filename),
        all_ascii(after_last(filename, '.')) ==> all_ascii(
            after_last(ascii_uppercase(filename), '.'),
        ),
        all_ascii(after_last(filename, '.')) ==> all_ascii(
            after_last(ascii_lowercase(filename), '.'),
        ),
{
    let ext = after_last(filename, '.');
    lemma_after_last_uppercase(filename);
    lemma_after_last_lowercase(filename);
    assert(ascii_lowercase(ascii_uppercase(ext)) =~= ascii_lowercase(ext));
    assert(ascii_lowercase(ascii_lowercase(ext)) =~= ascii_lowercase(ext));
    if all_ascii(ext) {
        assert forall|i: int| 0 <= i < ascii_uppercase(ext).len() implies (#[trigger] ascii_uppercase(ext)[i]) as int <= 127 by {
            assert(ext[i] as int <= 127);
        }
        assert forall|i: int| 0 <= i < ascii_lowercase(ext).len() implies (#[trigger] ascii_lowercase(ext)[i]) as int <= 127 by {
            assert(ext[i] as int <= 127);
        }
    }
}

/// Calls `str::to_lowercase`. Its result is named by `unicode_lowercase`;
/// for an ASCII text that is plain ASCII lowercasing, as the Unicode
/// lowercase mapping of ASCII letters is.
#[verifier::external_body]
fn to_lowercase(s: &str) -> (r: String)
    ensures
        r@ == unicode_lowercase(s@),
        all_ascii(s@) ==> r@ == ascii_lowercase(s@),
{
    s.to_lowercase()
}

/// The category of a lowercase file extension.
pub open spec fn category_of(ext: Seq<char>) -> Seq<char> {
    if ext == "mp4"@ || ext == "mkv"@ || ext == "avi"@ || ext == "mov"@ || ext == "webm"@ {
        "Video"@
    } else if ext == "mp3"@ || ext == "wav"@ || ext == "flac"@ || ext == "aac"@ || ext == "ogg"@ {
        "Audio"@
    } else if ext == "png"@ || ext == "jpg"@ || ext == "jpeg"@ || ext == "gif"@ || ext == "webp"@ {
        "Image"@
    } else if ext == "zip"@ || ext == "rar"@ || ext == "7z"@ || ext == "tar"@ || ext == "gz"@ {
        "Compressed"@
    } else if ext == "pdf"@ || ext == "doc"@ || ext == "docx"@ || ext == "txt"@ || ext == "xlsx"@ {
        "Document"@
    } else {
        "Other"@
    }
}

/// The category of a file name: that of the lowercased text after its last
/// `.` (the whole name when it has no `.`).
pub open spec fn file_category(filename: Seq<char>) -> Seq<char> {
    category_of(unicode_lowercase(after_last(filename, '.')))
}

fn is_one_of5(ext: &str, a: &str, b: &str, c: &str, d: &str, e: &str) -> (r: bool)
    ensures
        r == (ext@ == a@ || ext@ == b@ || ext@ == c@ || ext@ == d@ || ext@ == e@),
{
    same_text(ext, a) || same_text(ext, b) || same_text(ext, c) || same_text(ext, d) || same_text(
        ext,
        e,
    )
}

/// Category of an already lowercased extension: Video, Audio, Image,
/// Compressed, Document or Other.
pub fn category_of_extension(ext: &str) -> (r: &'static str)
    ensures
        r@ == category_of(ext@),
{
    if is_one_of5(ext, "mp4", "mkv", "avi", "mov", "webm") {
        "Video"
    } else if is_one_of5(ext, "mp3", "wav", "flac", "aac", "ogg") {
        "Audio"
    } else if is_one_of5(ext, "png", "jpg", "jpeg", "gif", "webp") {
        "Image"
    } else if is_one_of5(ext, "zip", "rar", "7z", "tar", "gz") {
        "Compressed"
    } else if is_one_of5(ext, "pdf", "doc", "docx", "txt", "xlsx") {
        "Document"
    } else {
        "Other"
    }
}

/// Lowercase extensions without `.` are read back whole: the category of
/// `<stem>.<ext>` is that of `ext`, whatever the stem.
proof fn lemma_named_extension(stem: Seq<char>, ext: Seq<char>)
    requires
        forall|i: int| 0 <= i < ext.len() ==> #[trigger] ext[i] != '.',
        forall|i: int| 0 <= i < ext.len() ==> !(65 <= (#[trigger] ext[i]) as int <= 90),
    ensures
        ascii_category(stem + "."@ + ext) == category_of(ext),
{
    reveal_strlit(".");
    crate::text::lemma_after_last_of_join(stem + "."@, ext, '.');
    assert(stem + "."@ + ext == (stem + "."@) + ext);
    assert(ascii_lowercase(ext) =~= ext);
}

/// Whatever the rest of the name, a file ending in `.mp4`, `.mkv`, `.avi`, `.mov`, `.webm` is
/// in the category Video.
pub proof fn lemma_video_extensions(stem: Seq<char>)
    ensures
        ascii_category(stem + "."@ + "mp4"@) == "Video"@,
        ascii_category(stem + "."@ + "mkv"@) == "Video"@,
        ascii_category(stem + "."@ + "avi"@) == "Video"@,
        ascii_category(stem + "."@ + "mov"@) == "Video"@,
        ascii_category(stem + "."@ + "webm"@) == "Video"@,
{
    assert(category_of("mp4"@) == "Video"@) by {
        reveal_strlit("mp4");
    }
    assert(ascii_category(stem + "."@ + "mp4"@) == category_of("mp4"@)) by {
        reveal_strlit("mp4");
        lemma_named_extension(stem, "mp4"@);
    }
    assert(category_of("mkv"@) == "Video"@) by {
        reveal_strlit("mkv");
    }
    assert(ascii_category(stem + "."@ + "mkv"@) == category_of("mkv"@)) by {
        reveal_strlit("mkv");
        lemma_named_extension(stem, "mkv"@);
    }
    assert(category_of("avi"@) == "Video"@) by {
        reveal_strlit("avi");
    }
    assert(ascii_category(stem + "."@ + "avi"@) == category_of("avi"@)) by {
        reveal_strlit("avi");
        lemma_named_extension(stem, "avi"@);
    }
    assert(category_of("mov"@) == "Video"@) by {
        reveal_strlit("mov");
    }
    assert(ascii_category(stem + "."@ + "mov"@) == category_of("mov"@)) by {
        reveal_strlit("mov");
        lemma_named_extension(stem, "mov"@);
    }
    assert(category_of("webm"@) == "Video"@) by {
        reveal_strlit("webm");
    }
    assert(ascii_category(stem + "."@ + "webm"@) == category_of("webm"@)) by {
        reveal_strlit("webm");
        lemma_named_extension(stem, "webm"@);
    }
}

/// Whatever the rest of the name, a file ending in `.mp3`, `.wav`, `.flac`, `.aac`, `.ogg` is
/// in the category Audio.
pub proof fn lemma_audio_extensions(stem: Seq<char>)
    ensures
        ascii_category(stem + "."@ + "mp3"@) == "Audio"@,
        ascii_category(stem + "."@ + "wav"@) == "Audio"@,
        ascii_category(stem + "."@ + "flac"@) == "Audio"@,
        ascii_category(stem + "."@ + "aac"@) == "Audio"@,
        ascii_category(stem + "."@ + "ogg"@) == "Audio"@,
{
    assert(category_of("mp3"@) == "Audio"@) by {
        reveal_strlit("mp3");
        reveal_strlit("mp4");
        assert("mp3"@[2] != "mp4"@[2]);
        reveal_strlit("mkv");
        assert("mp3"@[1] != "mkv"@[1]);
        reveal_strlit("avi");
        assert("mp3"@[0] != "avi"@[0]);
        reveal_strlit("mov");
        assert("mp3"@[1] != "mov"@[1]);
        reveal_strlit("webm");
        assert("mp3"@.len() != "webm"@.len());
    }
    assert(ascii_category(stem + "."@ + "mp3"@) == category_of("mp3"@)) by {
        reveal_strlit("mp3");
        lemma_named_extension(stem, "mp3"@);
    }
    assert(category_of("wav"@) == "Audio"@) by {
        reveal_strlit("wav");
        reveal_strlit("mp4");
        assert("wav"@[0] != "mp4"@[0]);
        reveal_strlit("mkv");
        assert("wav"@[0] != "mkv"@[0]);
        reveal_strlit("avi");
        assert("wav"@[0] != "avi"@[0]);
        reveal_strlit("mov");
        assert("wav"@[0] != "mov"@[0]);
        reveal_strlit("webm");
        assert("wav"@.len() != "webm"@.len());
    }
    assert(ascii_category(stem + "."@ + "wav"@) == category_of("wav"@)) by {
        reveal_strlit("wav");
        lemma_named_extension(stem, "wav"@);
    }
    assert(category_of("flac"@) == "Audio"@) by {
        reveal_strlit("flac");
        reveal_strlit("mp4");
        assert("flac"@.len() != "mp4"@.len());
        reveal_strlit("mkv");
        assert("flac"@.len() != "mkv"@.len());
        reveal_strlit("avi");
        assert("flac"@.len() != "avi"@.len());
        reveal_strlit("mov");
        assert("flac"@.len() != "mov"@.len());
        reveal_strlit("webm");
        assert("flac"@[0] != "webm"@[0]);
    }
    assert(ascii_category(stem + "."@ + "flac"@) == category_of("flac"@)) by {
        reveal_strlit("flac");
        lemma_named_extension(stem, "flac"@);
    }
    assert(category_of("aac"@) == "Audio"@) by {
        reveal_strlit("aac");
        reveal_strlit("mp4");
        assert("aac"@[0] != "mp4"@[0]);
        reveal_strlit("mkv");
        assert("aac"@[0] != "mkv"@[0]);
        reveal_strlit("avi");
        assert("aac"@[1] != "avi"@[1]);
        reveal_strlit("mov");
        assert("aac"@[0] != "mov"@[0]);
        reveal_strlit("webm");
        assert("aac"@.len() != "webm"@.len());
    }
    assert(ascii_category(stem + "."@ + "aac"@) == category_of("aac"@)) by {
        reveal_strlit("aac");
        lemma_named_extension(stem, "aac"@);
    }
    assert(category_of("ogg"@) == "Audio"@) by {
        reveal_strlit("ogg");
        reveal_strlit("mp4");
        assert("ogg"@[0] != "mp4"@[0]);
        reveal_strlit("mkv");
        assert("ogg"@[0] != "mkv"@[0]);
        reveal_strlit("avi");
        assert("ogg"@[0] != "avi"@[0]);
        reveal_strlit("mov");
        assert("ogg"@[0] != "mov"@[0]);
        reveal_strlit("webm");
        assert("ogg"@.len() != "webm"@.len());
    }
    assert(ascii_category(stem + "."@ + "ogg"@) == category_of("ogg"@)) by {
        reveal_strlit("ogg");
        lemma_named_extension(stem, "ogg"@);
    }
}

/// Whatever the rest of the name, a file ending in `.png`, `.jpg`, `.jpeg`, `.gif`, `.webp` is
/// in the category Image.
pub proof fn lemma_image_extensions(stem: Seq<char>)
    ensures
        ascii_category(stem + "."@ + "png"@) == "Image"@,
        ascii_category(stem + "."@ + "jpg"@) == "Image"@,
        ascii_category(stem + "."@ + "jpeg"@) == "Image"@,
        ascii_category(stem + "."@ + "gif"@) == "Image"@,
        ascii_category(stem + "."@ + "webp"@) == "Image"@,
{
    assert(category_of("png"@) == "Image"@) by {
        reveal_strlit("png");
        reveal_strlit("mp4");
        assert("png"@[0] != "mp4"@[0]);
        reveal_strlit("mkv");
        assert("png"@[0] != "mkv"@[0]);
        reveal_strlit("avi");
        assert("png"@[0] != "avi"@[0]);
        reveal_strlit("mov");
        assert("png"@[0] != "mov"@[0]);
        reveal_strlit("webm");
        assert("png"@.len() != "webm"@.len());
        reveal_strlit("mp3");
        assert("png"@[0] != "mp3"@[0]);
        reveal_strlit("wav");
        assert("png"@[0] != "wav"@[0]);
        reveal_strlit("flac");
        assert("png"@.len() != "flac"@.len());
        reveal_strlit("aac");
        assert("png"@[0] != "aac"@[0]);
        reveal_strlit("ogg");
        assert("png"@[0] != "ogg"@[0]);
    }
    assert(ascii_category(stem + "."@ + "png"@) == category_of("png"@)) by {
        reveal_strlit("png");
        lemma_named_extension(stem, "png"@);
    }
    assert(category_of("jpg"@) == "Image"@) by {
        reveal_strlit("jpg");
        reveal_strlit("mp4");
        assert("jpg"@[0] != "mp4"@[0]);
        reveal_strlit("mkv");
        assert("jpg"@[0] != "mkv"@[0]);
        reveal_strlit("avi");
        assert("jpg"@[0] != "avi"@[0]);
        reveal_strlit("mov");
        assert("jpg"@[0] != "mov"@[0]);
        reveal_strlit("webm");
        assert("jpg"@.len() != "webm"@.len());
        reveal_strlit("mp3");
        assert("jpg"@[0] != "mp3"@[0]);
        reveal_strlit("wav");
        assert("jpg"@[0] != "wav"@[0]);
        reveal_strlit("flac");
        assert("jpg"@.len() != "flac"@.len());
        reveal_strlit("aac");
        assert("jpg"@[0] != "aac"@[0]);
        reveal_strlit("ogg");
        assert("jpg"@[0] != "ogg"@[0]);
    }
    assert(ascii_category(stem + "."@ + "jpg"@) == category_of("jpg"@)) by {
        reveal_strlit("jpg");
        lemma_named_extension(stem, "jpg"@);
    }
    assert(category_of("jpeg"@) == "Image"@) by {
        reveal_strlit("jpeg");
        reveal_strlit("mp4");
        assert("jpeg"@.len() != "mp4"@.len());
        reveal_strlit("mkv");
        assert("jpeg"@.len() != "mkv"@.len());
        reveal_strlit("avi");
        assert("jpeg"@.len() != "avi"@.len());
        reveal_strlit("mov");
        assert("jpeg"@.len() != "mov"@.len());
        reveal_strlit("webm");
        assert("jpeg"@[0] != "webm"@[0]);
        reveal_strlit("mp3");
        assert("jpeg"@.len() != "mp3"@.len());
        reveal_strlit("wav");
        assert("jpeg"@.len() != "wav"@.len());
        reveal_strlit("flac");
        assert("jpeg"@[0] != "flac"@[0]);
        reveal_strlit("aac");
        assert("jpeg"@.len() != "aac"@.len());
        reveal_strlit("ogg");
        assert("jpeg"@.len() != "ogg"@.len());
    }
    assert(ascii_category(stem + "."@ + "jpeg"@) == category_of("jpeg"@)) by {
        reveal_strlit("jpeg");
        lemma_named_extension(stem, "jpeg"@);
    }
    assert(category_of("gif"@) == "Image"@) by {
        reveal_strlit("gif");
        reveal_strlit("mp4");
        assert("gif"@[0] != "mp4"@[0]);
        reveal_strlit("mkv");
        assert("gif"@[0] != "mkv"@[0]);
        reveal_strlit("avi");
        assert("gif"@[0] != "avi"@[0]);
        reveal_strlit("mov");
        assert("gif"@[0] != "mov"@[0]);
        reveal_strlit("webm");
        assert("gif"@.len() != "webm"@.len());
        reveal_strlit("mp3");
        assert("gif"@[0] != "mp3"@[0]);
        reveal_strlit("wav");
        assert("gif"@[0] != "wav"@[0]);
        reveal_strlit("flac");
        assert("gif"@.len() != "flac"@.len());
        reveal_strlit("aac");
        assert("gif"@[0] != "aac"@[0]);
        reveal_strlit("ogg");
        assert("gif"@[0] != "ogg"@[0]);
    }
    assert(ascii_category(stem + "."@ + "gif"@) == category_of("gif"@)) by {
        reveal_strlit("gif");
        lemma_named_extension(stem, "gif"@);
    }
    assert(category_of("webp"@) == "Image"@) by {
        reveal_strlit("webp");
        reveal_strlit("mp4");
        assert("webp"@.len() != "mp4"@.len());
        reveal_strlit("mkv");
        assert("webp"@.len() != "mkv"@.len());
        reveal_strlit("avi");
        assert("webp"@.len() != "avi"@.len());
        reveal_strlit("mov");
        assert("webp"@.len() != "mov"@.len());
        reveal_strlit("webm");
        assert("webp"@[3] != "webm"@[3]);
        reveal_strlit("mp3");
        assert("webp"@.len() != "mp3"@.len());
        reveal_strlit("wav");
        assert("webp"@.len() != "wav"@.len());
        reveal_strlit("flac");
        assert("webp"@[0] != "flac"@[0]);
        reveal_strlit("aac");
        assert("webp"@.len() != "aac"@.len());
        reveal_strlit("ogg");
        assert("webp"@.len() != "ogg"@.len());
    }
    assert(ascii_category(stem + "."@ + "webp"@) == category_of("webp"@)) by {
        reveal_strlit("webp");
        lemma_named_extension(stem, "webp"@);
    }
}

/// Whatever the rest of the name, a file ending in `.zip`, `.rar`, `.7z`, `.tar`, `.gz` is
/// in the category Compressed.
pub proof fn lemma_compressed_extensions(stem: Seq<char>)
    ensures
        ascii_category(stem + "."@ + "zip"@) == "Compressed"@,
        ascii_category(stem + "."@ + "rar"@) == "Compressed"@,
        ascii_category(stem + "."@ + "7z"@) == "Compressed"@,
        ascii_category(stem + "."@ + "tar"@) == "Compressed"@,
        ascii_category(stem + "."@ + "gz"@) == "Compressed"@,
{
    assert(category_of("zip"@) == "Compressed"@) by {
        reveal_strlit("zip");
        reveal_strlit("mp4");
        assert("zip"@[0] != "mp4"@[0]);
        reveal_strlit("mkv");
        assert("zip"@[0] != "mkv"@[0]);
        reveal_strlit("avi");
        assert("zip"@[0] != "avi"@[0]);
        reveal_strlit("mov");
        assert("zip"@[0] != "mov"@[0]);
        reveal_strlit("webm");
        assert("zip"@.len() != "webm"@.len());
        reveal_strlit("mp3");
        assert("zip"@[0] != "mp3"@[0]);
        reveal_strlit("wav");
        assert("zip"@[0] != "wav"@[0]);
        reveal_strlit("flac");
        assert("zip"@.len() != "flac"@.len());
        reveal_strlit("aac");
        assert("zip"@[0] != "aac"@[0]);
        reveal_strlit("ogg");
        assert("zip"@[0] != "ogg"@[0]);
        reveal_strlit("png");
        assert("zip"@[0] != "png"@[0]);
        reveal_strlit("jpg");
        assert("zip"@[0] != "jpg"@[0]);
        reveal_strlit("jpeg");
        assert("zip"@.len() != "jpeg"@.len());
        reveal_strlit("gif");
        assert("zip"@[0] != "gif"@[0]);
        reveal_strlit("webp");
        assert("zip"@.len() != "webp"@.len());
    }
    assert(ascii_category(stem + "."@ + "zip"@) == category_of("zip"@)) by {
        reveal_strlit("zip");
        lemma_named_extension(stem, "zip"@);
    }
    assert(category_of("rar"@) == "Compressed"@) by {
        reveal_strlit("rar");
        reveal_strlit("mp4");
        assert("rar"@[0] != "mp4"@[0]);
        reveal_strlit("mkv");
        assert("rar"@[0] != "mkv"@[0]);
        reveal_strlit("avi");
        assert("rar"@[0] != "avi"@[0]);
        reveal_strlit("mov");
        assert("rar"@[0] != "mov"@[0]);
        reveal_strlit("webm");
        assert("rar"@.len() != "webm"@.len());
        reveal_strlit("mp3");
        assert("rar"@[0] != "mp3"@[0]);
        reveal_strlit("wav");
        assert("rar"@[0] != "wav"@[0]);
        reveal_strlit("flac");
        assert("rar"@.len() != "flac"@.len());
        reveal_strlit("aac");
        assert("rar"@[0] != "aac"@[0]);
        reveal_strlit("ogg");
        assert("rar"@[0] != "ogg"@[0]);
        reveal_strlit("png");
        assert("rar"@[0] != "png"@[0]);
        reveal_strlit("jpg");
        assert("rar"@[0] != "jpg"@[0]);
        reveal_strlit("jpeg");
        assert("rar"@.len() != "jpeg"@.len());
        reveal_strlit("gif");
        assert("rar"@[0] != "gif"@[0]);
        reveal_strlit("webp");
        assert("rar"@.len() != "webp"@.len());
    }
    assert(ascii_category(stem + "."@ + "rar"@) == category_of("rar"@)) by {
        reveal_strlit("rar");
        lemma_named_extension(stem, "rar"@);
    }
    assert(category_of("7z"@) == "Compressed"@) by {
        reveal_strlit("7z");
        reveal_strlit("mp4");
        assert("7z"@.len() != "mp4"@.len());
        reveal_strlit("mkv");
        assert("7z"@.len() != "mkv"@.len());
        reveal_strlit("avi");
        assert("7z"@.len() != "avi"@.len());
        reveal_strlit("mov");
        assert("7z"@.len() != "mov"@.len());
        reveal_strlit("webm");
        assert("7z"@.len() != "webm"@.len());
        reveal_strlit("mp3");
        assert("7z"@.len() != "mp3"@.len());
        reveal_strlit("wav");
        assert("7z"@.len() != "wav"@.len());
        reveal_strlit("flac");
        assert("7z"@.len() != "flac"@.len());
        reveal_strlit("aac");
        assert("7z"@.len() != "aac"@.len());
        reveal_strlit("ogg");
        assert("7z"@.len() != "ogg"@.len());
        reveal_strlit("png");
        assert("7z"@.len() != "png"@.len());
        reveal_strlit("jpg");
        assert("7z"@.len() != "jpg"@.len());
        reveal_strlit("jpeg");
        assert("7z"@.len() != "jpeg"@.len());
        reveal_strlit("gif");
        assert("7z"@.len() != "gif"@.len());
        reveal_strlit("webp");
        assert("7z"@.len() != "webp"@.len());
    }
    assert(ascii_category(stem + "."@ + "7z"@) == category_of("7z"@)) by {
        reveal_strlit("7z");
        lemma_named_extension(stem, "7z"@);
    }
    assert(category_of("tar"@) == "Compressed"@) by {
        reveal_strlit("tar");
        reveal_strlit("mp4");
        assert("tar"@[0] != "mp4"@[0]);
        reveal_strlit("mkv");
        assert("tar"@[0] != "mkv"@[0]);
        reveal_strlit("avi");
        assert("tar"@[0] != "avi"@[0]);
        reveal_strlit("mov");
        assert("tar"@[0] != "mov"@[0]);
        reveal_strlit("webm");
        assert("tar"@.len() != "webm"@.len());
        reveal_strlit("mp3");
        assert("tar"@[0] != "mp3"@[0]);
        reveal_strlit("wav");
        assert("tar"@[0] != "wav"@[0]);
        reveal_strlit("flac");
        assert("tar"@.len() != "flac"@.len());
        reveal_strlit("aac");
        assert("tar"@[0] != "aac"@[0]);
        reveal_strlit("ogg");
        assert("tar"@[0] != "ogg"@[0]);
        reveal_strlit("png");
        assert("tar"@[0] != "png"@[0]);
        reveal_strlit("jpg");
        assert("tar"@[0] != "jpg"@[0]);
        reveal_strlit("jpeg");
        assert("tar"@.len() != "jpeg"@.len());
        reveal_strlit("gif");
        assert("tar"@[0] != "gif"@[0]);
        reveal_strlit("webp");
        assert("tar"@.len() != "webp"@.len());
    }
    assert(ascii_category(stem + "."@ + "tar"@) == category_of("tar"@)) by {
        reveal_strlit("tar");
        lemma_named_extension(stem, "tar"@);
    }
    assert(category_of("gz"@) == "Compressed"@) by {
        reveal_strlit("gz");
        reveal_strlit("mp4");
        assert("gz"@.len() != "mp4"@.len());
        reveal_strlit("mkv");
        assert("gz"@.len() != "mkv"@.len());
        reveal_strlit("avi");
        assert("gz"@.len() != "avi"@.len());
        reveal_strlit("mov");
        assert("gz"@.len() != "mov"@.len());
        reveal_strlit("webm");
        assert("gz"@.len() != "webm"@.len());
        reveal_strlit("mp3");
        assert("gz"@.len() != "mp3"@.len());
        reveal_strlit("wav");
        assert("gz"@.len() != "wav"@.len());
        reveal_strlit("flac");
        assert("gz"@.len() != "flac"@.len());
        reveal_strlit("aac");
        assert("gz"@.len() != "aac"@.len());
        reveal_strlit("ogg");
        assert("gz"@.len() != "ogg"@.len());
        reveal_strlit("png");
        assert("gz"@.len() != "png"@.len());
        reveal_strlit("jpg");
        assert("gz"@.len() != "jpg"@.len());
        reveal_strlit("jpeg");
        assert("gz"@.len() != "jpeg"@.len());
        reveal_strlit("gif");
        assert("gz"@.len() != "gif"@.len());
        reveal_strlit("webp");
        assert("gz"@.len() != "webp"@.len());
    }
    assert(ascii_category(stem + "."@ + "gz"@) == category_of("gz"@)) by {
        reveal_strlit("gz");
        lemma_named_extension(stem, "gz"@);
    }
}

/// Whatever the rest of the name, a file ending in `.pdf`, `.doc`, `.docx`, `.txt`, `.xlsx` is
/// in the category Document.
pub proof fn lemma_document_extensions(stem: Seq<char>)
    ensures
        ascii_category(stem + "."@ + "pdf"@) == "Document"@,
        ascii_category(stem + "."@ + "doc"@) == "Document"@,
        ascii_category(stem + "."@ + "docx"@) == "Document"@,
        ascii_category(stem + "."@ + "txt"@) == "Document"@,
        ascii_category(stem + "."@ + "xlsx"@) == "Document"@,
{
    assert(category_of("pdf"@) == "Document"@) by {
        reveal_strlit("pdf");
        reveal_strlit("mp4");
        assert("pdf"@[0] != "mp4"@[0]);
        reveal_strlit("mkv");
        assert("pdf"@[0] != "mkv"@[0]);
        reveal_strlit("avi");
        assert("pdf"@[0] != "avi"@[0]);
        reveal_strlit("mov");
        assert("pdf"@[0] != "mov"@[0]);
        reveal_strlit("webm");
        assert("pdf"@.len() != "webm"@.len());
        reveal_strlit("mp3");
        assert("pdf"@[0] != "mp3"@[0]);
        reveal_strlit("wav");
        assert("pdf"@[0] != "wav"@[0]);
        reveal_strlit("flac");
        assert("pdf"@.len() != "flac"@.len());
        reveal_strlit("aac");
        assert("pdf"@[0] != "aac"@[0]);
        reveal_strlit("ogg");
        assert("pdf"@[0] != "ogg"@[0]);
        reveal_strlit("png");
        assert("pdf"@[1] != "png"@[1]);
        reveal_strlit("jpg");
        assert("pdf"@[0] != "jpg"@[0]);
        reveal_strlit("jpeg");
        assert("pdf"@.len() != "jpeg"@.len());
        reveal_strlit("gif");
        assert("pdf"@[0] != "gif"@[0]);
        reveal_strlit("webp");
        assert("pdf"@.len() != "webp"@.len());
        reveal_strlit("zip");
        assert("pdf"@[0] != "zip"@[0]);
        reveal_strlit("rar");
        assert("pdf"@[0] != "rar"@[0]);
        reveal_strlit("7z");
        assert("pdf"@.len() != "7z"@.len());
        reveal_strlit("tar");
        assert("pdf"@[0] != "tar"@[0]);
        reveal_strlit("gz");
        assert("pdf"@.len() != "gz"@.len());
    }
    assert(ascii_category(stem + "."@ + "pdf"@) == category_of("pdf"@)) by {
        reveal_strlit("pdf");
        lemma_named_extension(stem, "pdf"@);
    }
    assert(category_of("doc"@) == "Document"@) by {
        reveal_strlit("doc");
        reveal_strlit("mp4");
        assert("doc"@[0] != "mp4"@[0]);
        reveal_strlit("mkv");
        assert("doc"@[0] != "mkv"@[0]);
        reveal_strlit("avi");
        assert("doc"@[0] != "avi"@[0]);
        reveal_strlit("mov");
        assert("doc"@[0] != "mov"@[0]);
        reveal_strlit("webm");
        assert("doc"@.len() != "webm"@.len());
        reveal_strlit("mp3");
        assert("doc"@[0] != "mp3"@[0]);
        reveal_strlit("wav");
        assert("doc"@[0] != "wav"@[0]);
        reveal_strlit("flac");
        assert("doc"@.len() != "flac"@.len());
        reveal_strlit("aac");
        assert("doc"@[0] != "aac"@[0]);
        reveal_strlit("ogg");
        assert("doc"@[0] != "ogg"@[0]);
        reveal_strlit("png");
        assert("doc"@[0] != "png"@[0]);
        reveal_strlit("jpg");
        assert("doc"@[0] != "jpg"@[0]);
        reveal_strlit("jpeg");
        assert("doc"@.len() != "jpeg"@.len());
        reveal_strlit("gif");
        assert("doc"@[0] != "gif"@[0]);
        reveal_strlit("webp");
        assert("doc"@.len() != "webp"@.len());
        reveal_strlit("zip");
        assert("doc"@[0] != "zip"@[0]);
        reveal_strlit("rar");
        assert("doc"@[0] != "rar"@[0]);
        reveal_strlit("7z");
        assert("doc"@.len() != "7z"@.len());
        reveal_strlit("tar");
        assert("doc"@[0] != "tar"@[0]);
        reveal_strlit("gz");
        assert("doc"@.len() != "gz"@.len());
    }
    assert(ascii_category(stem + "."@ + "doc"@) == category_of("doc"@)) by {
        reveal_strlit("doc");
        lemma_named_extension(stem, "doc"@);
    }
    assert(category_of("docx"@) == "Document"@) by {
        reveal_strlit("docx");
        reveal_strlit("mp4");
        assert("docx"@.len() != "mp4"@.len());
        reveal_strlit("mkv");
        assert("docx"@.len() != "mkv"@.len());
        reveal_strlit("avi");
        assert("docx"@.len() != "avi"@.len());
        reveal_strlit("mov");
        assert("docx"@.len() != "mov"@.len());
        reveal_strlit("webm");
        assert("docx"@[0] != "webm"@[0]);
        reveal_strlit("mp3");
        assert("docx"@.len() != "mp3"@.len());
        reveal_strlit("wav");
        assert("docx"@.len() != "wav"@.len());
        reveal_strlit("flac");
        assert("docx"@[0] != "flac"@[0]);
        reveal_strlit("aac");
        assert("docx"@.len() != "aac"@.len());
        reveal_strlit("ogg");
        assert("docx"@.len() != "ogg"@.len());
        reveal_strlit("png");
        assert("docx"@.len() != "png"@.len());
        reveal_strlit("jpg");
        assert("docx"@.len() != "jpg"@.len());
        reveal_strlit("jpeg");
        assert("docx"@[0] != "jpeg"@[0]);
        reveal_strlit("gif");
        assert("docx"@.len() != "gif"@.len());
        reveal_strlit("webp");
        assert("docx"@[0] != "webp"@[0]);
        reveal_strlit("zip");
        assert("docx"@.len() != "zip"@.len());
        reveal_strlit("rar");
        assert("docx"@.len() != "rar"@.len());
        reveal_strlit("7z");
        assert("docx"@.len() != "7z"@.len());
        reveal_strlit("tar");
        assert("docx"@.len() != "tar"@.len());
        reveal_strlit("gz");
        assert("docx"@.len() != "gz"@.len());
    }
    assert(ascii_category(stem + "."@ + "docx"@) == category_of("docx"@)) by {
        reveal_strlit("docx");
        lemma_named_extension(stem, "docx"@);
    }
    assert(category_of("txt"@) == "Document"@) by {
        reveal_strlit("txt");
        reveal_strlit("mp4");
        assert("txt"@[0] != "mp4"@[0]);
        reveal_strlit("mkv");
        assert("txt"@[0] != "mkv"@[0]);
        reveal_strlit("avi");
        assert("txt"@[0] != "avi"@[0]);
        reveal_strlit("mov");
        assert("txt"@[0] != "mov"@[0]);
        reveal_strlit("webm");
        assert("txt"@.len() != "webm"@.len());
        reveal_strlit("mp3");
        assert("txt"@[0] != "mp3"@[0]);
        reveal_strlit("wav");
        assert("txt"@[0] != "wav"@[0]);
        reveal_strlit("flac");
        assert("txt"@.len() != "flac"@.len());
        reveal_strlit("aac");
        assert("txt"@[0] != "aac"@[0]);
        reveal_strlit("ogg");
        assert("txt"@[0] != "ogg"@[0]);
        reveal_strlit("png");
        assert("txt"@[0] != "png"@[0]);
        reveal_strlit("jpg");
        assert("txt"@[0] != "jpg"@[0]);
        reveal_strlit("jpeg");
        assert("txt"@.len() != "jpeg"@.len());
        reveal_strlit("gif");
        assert("txt"@[0] != "gif"@[0]);
        reveal_strlit("webp");
        assert("txt"@.len() != "webp"@.len());
        reveal_strlit("zip");
        assert("txt"@[0] != "zip"@[0]);
        reveal_strlit("rar");
        assert("txt"@[0] != "rar"@[0]);
        reveal_strlit("7z");
        assert("txt"@.len() != "7z"@.len());
        reveal_strlit("tar");
        assert("txt"@[1] != "tar"@[1]);
        reveal_strlit("gz");
        assert("txt"@.len() != "gz"@.len());
    }
    assert(ascii_category(stem + "."@ + "txt"@) == category_of("txt"@)) by {
        reveal_strlit("txt");
        lemma_named_extension(stem, "txt"@);
    }
    assert(category_of("xlsx"@) == "Document"@) by {
        reveal_strlit("xlsx");
        reveal_strlit("mp4");
        assert("xlsx"@.len() != "mp4"@.len());
        reveal_strlit("mkv");
        assert("xlsx"@.len() != "mkv"@.len());
        reveal_strlit("avi");
        assert("xlsx"@.len() != "avi"@.len());
        reveal_strlit("mov");
        assert("xlsx"@.len() != "mov"@.len());
        reveal_strlit("webm");
        assert("xlsx"@[0] != "webm"@[0]);
        reveal_strlit("mp3");
        assert("xlsx"@.len() != "mp3"@.len());
        reveal_strlit("wav");
        assert("xlsx"@.len() != "wav"@.len());
        reveal_strlit("flac");
        assert("xlsx"@[0] != "flac"@[0]);
        reveal_strlit("aac");
        assert("xlsx"@.len() != "aac"@.len());
        reveal_strlit("ogg");
        assert("xlsx"@.len() != "ogg"@.len());
        reveal_strlit("png");
        assert("xlsx"@.len() != "png"@.len());
        reveal_strlit("jpg");
        assert("xlsx"@.len() != "jpg"@.len());
        reveal_strlit("jpeg");
        assert("xlsx"@[0] != "jpeg"@[0]);
        reveal_strlit("gif");
        assert("xlsx"@.len() != "gif"@.len());
        reveal_strlit("webp");
        assert("xlsx"@[0] != "webp"@[0]);
        reveal_strlit("zip");
        assert("xlsx"@.len() != "zip"@.len());
        reveal_strlit("rar");
        assert("xlsx"@.len() != "rar"@.len());
        reveal_strlit("7z");
        assert("xlsx"@.len() != "7z"@.len());
        reveal_strlit("tar");
        assert("xlsx"@.len() != "tar"@.len());
        reveal_strlit("gz");
        assert("xlsx"@.len() != "gz"@.len());
    }
    assert(ascii_category(stem + "."@ + "xlsx"@) == category_of("xlsx"@)) by {
        reveal_strlit("xlsx");
        lemma_named_extension(stem, "xlsx"@);
    }
}

/// The category of a file, judged by its extension (case does not matter).
pub fn get_file_category(filename: &str) -> (r: &'static str)
    ensures
        r@ == file_category(filename@),
        all_ascii(after_last(filename@, '.')) ==> r@ == ascii_category(filename@),
{
    let tail = text_after_last(filename, '.');
    let ext = to_lowercase(tail);
    category_of_extension(ext.as_str())
}

/// Adding two entries one after the other leaves the later one first, the
/// earlier one second and the older history after them, in its order.
pub proof fn lemma_history_newest_first(history: Seq<HistoryEntry>, first: HistoryEntry, second: HistoryEntry)
    ensures
        (seq![second] + (seq![first] + history))[0] == second,
        (seq![second] + (seq![first] + history))[1] == first,
        (seq![second] + (seq![first] + history)).skip(2) == history,
        (seq![second] + (seq![first] + history)).len() == history.len() + 2,
{
    assert((seq![second] + (seq![first] + history)).skip(2) =~= history);
}

/// Puts `entry` at the front of the history, before all older entries.
pub fn add_history_entry(entries: &mut Vec<HistoryEntry>, entry: HistoryEntry)
    ensures
        final(entries)@ == seq![entry] + old(entries)@,
        final(entries)@.len() == old(entries)@.len() + 1,
        final(entries)@[0] == entry,
        final(entries)@.skip(1) == old(entries)@,
{
    entries.insert(0, entry);
    assert(final(entries)@ =~= seq![entry] + old(entries)@);
}

/// The history entry recorded when a download finishes; its type is the
/// category of its file name.
pub fn history_entry_for(
    id: String,
    filename: String,
    url: String,
    file_size: u64,
    save_path: String,
    completed_at: String,
) -> (e: HistoryEntry)
    ensures
        e.id == id,
        e.filename == filename,
        e.url == url,
        e.file_size == file_size,
        e.save_path == save_path,
        e.completed_at == completed_at,
        e.file_type@ == file_category(filename@),
{
    let file_type = String::from_str(get_file_category(filename.as_str()));
    HistoryEntry { id, filename, url, file_size, save_path, file_type, completed_at }
}

} // verus!
