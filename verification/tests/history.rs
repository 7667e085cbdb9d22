use cli_downloader::history::{add_history_entry, category_of_extension, get_file_category, history_entry_for, HistoryEntry};

fn entry(id: &str) -> HistoryEntry {
    history_entry_for(
        id.to_string(),
        format!("{id}.zip"),
        format!("http://host/{id}.zip"),
        10,
        format!("C:\\Downloads\\{id}.zip"),
        "01 Jan 2025, 10:00 AM".to_string(),
    )
}

#[test]
fn categories_by_extension() {
    assert_eq!(get_file_category("movie.mp4"), "Video");
    assert_eq!(get_file_category("movie.MKV"), "Video");
    assert_eq!(get_file_category("song.flac"), "Audio");
    assert_eq!(get_file_category("pic.JPEG"), "Image");
    assert_eq!(get_file_category("backup.tar.gz"), "Compressed");
    assert_eq!(get_file_category("a.7z"), "Compressed");
    assert_eq!(get_file_category("report.Docx"), "Document");
    assert_eq!(get_file_category("notes.txt"), "Document");
    assert_eq!(get_file_category("program.exe"), "Other");
}

#[test]
fn category_edge_cases() {
    assert_eq!(get_file_category("mp4"), "Video");
    assert_eq!(get_file_category("archive."), "Other");
    assert_eq!(get_file_category(""), "Other");
    assert_eq!(get_file_category(".gif"), "Image");
    assert_eq!(get_file_category("video.mp4.part"), "Other");
}

#[test]
fn unicode_lowercase_is_used() {
    // KELVIN SIGN lowercases to an ASCII 'k'.
    assert_eq!(get_file_category("film.m\u{212A}v"), "Video");
}

#[test]
fn extension_categories() {
    assert_eq!(category_of_extension("webm"), "Video");
    assert_eq!(category_of_extension("WEBM"), "Other");
    assert_eq!(category_of_extension("ogg"), "Audio");
    assert_eq!(category_of_extension("webp"), "Image");
    assert_eq!(category_of_extension("rar"), "Compressed");
    assert_eq!(category_of_extension("xlsx"), "Document");
    assert_eq!(category_of_extension(""), "Other");
}

#[test]
fn newest_entry_comes_first() {
    let mut entries = vec![entry("b"), entry("a")];
    add_history_entry(&mut entries, entry("c"));
    let ids: Vec<&str> = entries.iter().map(|e| e.id.as_str()).collect();
    assert_eq!(ids, vec!["c", "b", "a"]);
    let mut empty = Vec::new();
    add_history_entry(&mut empty, entry("x"));
    assert_eq!(empty.len(), 1);
}

#[test]
fn history_entry_gets_category() {
    let e = history_entry_for(
        "id-1".to_string(),
        "Clip.MOV".to_string(),
        "http://h/Clip.MOV".to_string(),
        42,
        "D:\\x\\Clip.MOV".to_string(),
        "now".to_string(),
    );
    assert_eq!(e.file_type, "Video");
    assert_eq!(e.file_size, 42);
    assert_eq!(e.id, "id-1");
    assert_eq!(e.completed_at, "now");
}

#[test]
fn category_ignores_ascii_case() {
    for f in ["Movie.Mp4", "a.TAR.gz", "x.PdF", "noext", "song.Flac", "weird.EXE", "ünï.MkV", "ÄÖ.Zip", "z.\u{212A}"] {
        assert_eq!(get_file_category(&f.to_ascii_uppercase()), get_file_category(f), "{f}");
        assert_eq!(get_file_category(&f.to_ascii_lowercase()), get_file_category(f), "{f}");
    }
}
