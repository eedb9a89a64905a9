use mofish::book::{
    format_for_path, handle, scan_format, search_pattern, title_for_path, BookAction, BookFormat,
    BookTask,
};

#[test]
fn titles_come_from_file_stems() {
    assert_eq!(title_for_path("/books/三体.txt"), "三体");
    assert_eq!(title_for_path("novel.epub"), "novel");
    assert_eq!(title_for_path("/books/archive.tar.gz"), "archive.tar");
    assert_eq!(title_for_path("/books/.hidden"), ".hidden");
    assert_eq!(title_for_path("/books/README"), "README");
    assert_eq!(title_for_path("/books/.."), "Unknown");
    assert_eq!(title_for_path("/"), "Unknown");
}

#[test]
fn formats_come_from_path_endings() {
    assert_eq!(format_for_path("a.txt"), BookFormat::Txt);
    assert_eq!(format_for_path("a.epub"), BookFormat::Epub);
    assert_eq!(format_for_path("a.pdf"), BookFormat::Txt);
    assert_eq!(format_for_path("a.EPUB"), BookFormat::Txt);
    assert_eq!(BookFormat::Txt.name(), "txt");
    assert_eq!(BookFormat::Epub.name(), "epub");
}

#[test]
fn scans_keep_text_and_epub_files() {
    assert_eq!(scan_format("/d/a.txt"), Some(BookFormat::Txt));
    assert_eq!(scan_format("/d/b.epub"), Some(BookFormat::Epub));
    assert_eq!(scan_format("/d/c.pdf"), None);
    assert_eq!(scan_format("/d/.txt"), None);
    assert_eq!(scan_format("/d/notes"), None);
}

#[test]
fn search_pattern_wraps_keyword() {
    assert_eq!(search_pattern("全职"), "%全职%");
}

#[test]
fn handle_derives_title_and_format() {
    match handle(BookAction::Add { path: "/x/y/book.epub".to_string() }) {
        BookTask::AddFile { path, title, format } => {
            assert_eq!(path, "/x/y/book.epub");
            assert_eq!(title, "book");
            assert_eq!(format, BookFormat::Epub);
        }
        other => panic!("unexpected {:?}", other),
    }
    assert!(matches!(handle(BookAction::List), BookTask::ListAll));
    match handle(BookAction::Scan { path: "/x".to_string() }) {
        BookTask::ScanDir { path } => assert_eq!(path, "/x"),
        other => panic!("unexpected {:?}", other),
    }
    match handle(BookAction::Search { keyword: "k".to_string() }) {
        BookTask::Search { keyword } => assert_eq!(keyword, "k"),
        other => panic!("unexpected {:?}", other),
    }
}

#[test]
fn stem_and_extension_rebuild_file_name() {
    // "archive.tar.gz": stem "archive.tar", extension "gz".
    assert_eq!(title_for_path("/x/archive.tar.gz"), "archive.tar");
    assert_eq!(scan_format("/x/archive.tar.txt"), Some(BookFormat::Txt));
    assert_eq!(title_for_path("/x/archive.tar.txt"), "archive.tar");
}
