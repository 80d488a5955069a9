use calibre::audit::{audit_book, audit_report, BookObservation, FileObservation, FormatObservation};
use calibre::audit::{
    book_path_issue, cover_issue, format_file, format_size_issue, integrity_issues,
    missing_directory_issue, missing_format_issue,
};
use calibre::custom_columns::{
    check_definitions, column_tables, column_value, find_definition, is_readable_kind, missing_column, ColumnValue,
    StoredValue,
};
use calibre::opf::TrashBookMetadata;
use calibre::trash::{
    check_deferred_state, deferred_state_tables, format_trash_relative, is_expired, is_format_entry_name,
    restored_format_entry, restored_values, trash_entry_id, trash_entry_relative, unknown_listing,
    DEFAULT_TRASH_EXPIRY,
};
use calibre::{
    AuditIssueKind, AuditReport, BookId, CustomColumn, CustomColumnId, CustomColumnKind, Error,
    TrashEntryKind,
};

#[test]
fn trash_layout() {
    assert_eq!(trash_entry_relative(TrashEntryKind::Book, BookId::new(3)).unwrap(), ".caltrash/b/3");
    assert_eq!(format_trash_relative(BookId::new(3), "EPUB").unwrap(), ".caltrash/f/3/epub");
    assert!(matches!(trash_entry_relative(TrashEntryKind::Formats, BookId::new(-1)), Err(Error::InvalidInput { .. })));
    assert_eq!(trash_entry_id("17").map(|b| b.get()), Some(17));
    assert_eq!(trash_entry_id("0"), None);
    assert_eq!(trash_entry_id("x1"), None);
    assert_eq!(DEFAULT_TRASH_EXPIRY, 1_209_600);
    assert!(is_expired(100, 40, 60));
    assert!(!is_expired(100, 41, 60));
    assert!(is_expired(100, 200, 0));
    assert!(!is_format_entry_name("metadata.json"));
    assert!(is_format_entry_name("epub"));
    let (title, authors) = unknown_listing();
    assert_eq!(title, "Unknown");
    assert_eq!(authors, vec!["Unknown".to_string()]);
    assert!(check_deferred_state(false, 3).is_ok());
    assert!(check_deferred_state(true, 0).is_ok());
    assert!(matches!(check_deferred_state(true, 1), Err(Error::UnsupportedOperation { .. })));
}

#[test]
fn restored_books() {
    let metadata = TrashBookMetadata {
        id: BookId::new(5),
        title: "The Hobbit".into(),
        sort: None,
        timestamp: None,
        publication_date: None,
        author_sort: None,
        uuid: None,
        authors: vec!["J. Tolkien".into()],
        tags: Vec::new(),
        series: None,
        series_index: None,
        publisher: None,
        languages: Vec::new(),
        identifiers: Vec::new(),
        comments: None,
        rating: None,
    };
    let values = restored_values(&metadata);
    assert_eq!(values.relative_path, "J. Tolkien/The Hobbit (5)");
    assert_eq!(values.author_sort, "Tolkien, J.");
    assert_eq!(values.sort, "Hobbit, the");
    assert_eq!(values.uuid.len(), 36);
    let entry = restored_format_entry("The Hobbit - J. Tolkien.EPUB", &Vec::new(), "d").unwrap().unwrap();
    assert_eq!(entry.format, "EPUB");
    assert_eq!(entry.stem, "The Hobbit - J. Tolkien");
    assert!(restored_format_entry("metadata.opf", &Vec::new(), "d").unwrap().is_none());
    assert!(restored_format_entry("README", &Vec::new(), "d").unwrap().is_none());
    assert!(matches!(restored_format_entry("a.bad-ext", &Vec::new(), "d"), Err(Error::InvalidInput { field: "format", .. })));
    match restored_format_entry("b.epub", &vec!["EPUB".to_string()], "dir") {
        Err(Error::InvalidLibrary { path, .. }) => assert_eq!(path, "dir"),
        other => panic!("a duplicate format is refused: {other:?}"),
    }
    assert!(matches!(restored_format_entry("x.e-pub", &Vec::new(), "d"), Err(Error::InvalidInput { .. })));
    assert!(matches!(
        restored_format_entry("y.epub", &vec!["EPUB".to_string()], "d"),
        Err(Error::InvalidLibrary { .. })
    ));
}

#[test]
fn audit_findings() {
    let book = BookId::new(2);
    let issues = integrity_issues(&vec!["ok".into(), "row 3 missing".into()], "/lib/metadata.db");
    assert_eq!(issues.len(), 1);
    assert_eq!(issues[0].kind, AuditIssueKind::DatabaseIntegrity);
    assert_eq!(issues[0].detail, "row 3 missing");
    assert!(book_path_issue(book, "A/T (2)").is_none());
    assert_eq!(book_path_issue(book, "../x").unwrap().kind, AuditIssueKind::UnsafeBookPath);
    assert_eq!(cover_issue(book, "c", true, false).unwrap().kind, AuditIssueKind::MissingCover);
    assert_eq!(cover_issue(book, "c", false, true).unwrap().kind, AuditIssueKind::UntrackedCover);
    assert!(cover_issue(book, "c", true, true).is_none());
    assert_eq!(format_file(book, "epub", "T - A").unwrap(), "T - A.epub");
    assert_eq!(format_file(book, "e pub", "T - A").unwrap_err().kind, AuditIssueKind::MalformedFormat);
    assert!(format_size_issue(book, "p", 10, 10).is_none());
    assert_eq!(format_size_issue(book, "p", 10, 11).unwrap().kind, AuditIssueKind::FormatSizeMismatch);
    assert_eq!(format_size_issue(book, "p", -1, 0).unwrap().kind, AuditIssueKind::FormatSizeMismatch);
    assert_eq!(missing_format_issue(book, "p", false).kind, AuditIssueKind::MissingFormat);
    assert_eq!(missing_directory_issue(book, "d").kind, AuditIssueKind::MissingBookDirectory);
    let report = AuditReport { books_checked: 1, formats_checked: 0, issues: Vec::new() };
    assert!(report.is_clean());
}

fn column(id: i64, label: &str, kind: CustomColumnKind, normalized: bool) -> CustomColumn {
    CustomColumn {
        id: CustomColumnId::new(id),
        label: label.into(),
        name: label.into(),
        kind,
        is_multiple: false,
        editable: true,
        display: "{}".into(),
        normalized,
    }
}

#[test]
fn custom_columns() {
    assert!(matches!(CustomColumnKind::from_database("bool".into()), CustomColumnKind::Boolean));
    assert!(matches!(CustomColumnKind::from_database("series".into()), CustomColumnKind::Series));
    match CustomColumnKind::from_database("mystery".into()) {
        CustomColumnKind::Unknown(v) => assert_eq!(v, "mystery"),
        _ => panic!("unknown kind expected"),
    }
    assert!(is_readable_kind(&CustomColumnKind::Float));
    assert!(!is_readable_kind(&CustomColumnKind::Composite));
    assert!(!is_readable_kind(&CustomColumnKind::Unknown("x".into())));
    let defs = vec![column(1, "read", CustomColumnKind::Boolean, false), column(2, "shelf", CustomColumnKind::Series, true)];
    assert!(check_definitions(&defs, "db").is_ok());
    assert_eq!(find_definition(&defs, "#shelf").unwrap(), 1);
    assert_eq!(find_definition(&defs, "read").unwrap(), 0);
    assert!(matches!(find_definition(&defs, "#nope"), Err(Error::InvalidInput { .. })));
    let tables = column_tables(&defs[1], "db").unwrap();
    assert_eq!(tables.value_table, "custom_column_2");
    assert_eq!(tables.link_table.as_deref(), Some("books_custom_column_2_link"));
    assert!(tables.series_extra);
    let plain = column_tables(&defs[0], "db").unwrap();
    assert_eq!(plain.link_table, None);
    assert!(matches!(column_tables(&column(0, "x", CustomColumnKind::Text, false), "db"), Err(Error::InvalidLibrary { .. })));
    assert!(matches!(check_definitions(&vec![column(-1, "x", CustomColumnKind::Text, false)], "db"), Err(Error::InvalidLibrary { .. })));
    let existing = vec!["id".to_string(), "value".to_string()];
    assert_eq!(missing_column(&existing, &vec!["id".to_string(), "book".to_string()]), Some(1));
    assert_eq!(missing_column(&existing, &vec!["value".to_string()]), None);
}

#[test]
fn deferred_state_tables_block_trash() {
    assert_eq!(deferred_state_tables(), vec!["annotations", "books_plugin_data", "conversion_options", "last_read_positions"]);
}

fn observed(stored_path: &str, is_dir: bool) -> BookObservation {
    BookObservation {
        id: BookId::new(7),
        stored_path: stored_path.into(),
        directory_escape: None,
        directory: format!("/lib/{stored_path}"),
        is_dir,
        has_cover: true,
        cover_escape: None,
        cover_is_file: false,
        formats: vec![
            FormatObservation { format: "epub".into(), stored_size: 10, stem: "T - A".into(), file: FileObservation::File(12) },
            FormatObservation { format: "bad/".into(), stored_size: 1, stem: "x".into(), file: FileObservation::Missing },
            FormatObservation { format: "PDF".into(), stored_size: 5, stem: "T - A".into(), file: FileObservation::File(5) },
            FormatObservation { format: "TXT".into(), stored_size: 5, stem: "T - A".into(), file: FileObservation::NotFile },
        ],
    }
}

#[test]
fn book_audit_order() {
    let (issues, checked) = audit_book(&observed("A/T (7)", true));
    let kinds = issues.iter().map(|i| i.kind).collect::<Vec<_>>();
    assert_eq!(kinds, vec![
        AuditIssueKind::MissingCover,
        AuditIssueKind::FormatSizeMismatch,
        AuditIssueKind::MalformedFormat,
        AuditIssueKind::MissingFormat,
    ]);
    assert_eq!(issues[0].path.as_deref(), Some("/lib/A/T (7)/cover.jpg"));
    assert_eq!(issues[1].path.as_deref(), Some("/lib/A/T (7)/T - A.epub"));
    assert_eq!(issues[3].path.as_deref(), Some("/lib/A/T (7)/T - A.txt"));
    assert_eq!(checked, 4);
    let (issues, checked) = audit_book(&observed("A/T (7)", false));
    assert_eq!(issues.len(), 1);
    assert_eq!(issues[0].kind, AuditIssueKind::MissingBookDirectory);
    assert_eq!(checked, 0);
    let (issues, checked) = audit_book(&observed("../x", true));
    assert_eq!(issues.len(), 1);
    assert_eq!(issues[0].kind, AuditIssueKind::UnsafeBookPath);
    assert_eq!(checked, 0);
}

#[test]
fn custom_column_values_follow_their_kind() {
    let mut tags = column(3, "tags", CustomColumnKind::Text, true);
    tags.is_multiple = true;
    let texts = vec![StoredValue::Text("a".into()), StoredValue::Text("b".into())];
    match column_value(&tags, &texts, "db").unwrap() {
        Some(ColumnValue::TextList(values)) => assert_eq!(values, vec!["a", "b"]),
        other => panic!("a text list is read: {other:?}"),
    }
    let single = column(4, "note", CustomColumnKind::Text, false);
    match column_value(&single, &texts, "db").unwrap() {
        Some(ColumnValue::Text(value)) => assert_eq!(value, "a"),
        other => panic!("the first text is read: {other:?}"),
    }
    assert!(column_value(&single, &vec![], "db").unwrap().is_none());
    assert!(matches!(
        column_value(&single, &vec![StoredValue::Text("a".into()), StoredValue::Integer(1)], "db"),
        Err(Error::InvalidLibrary { .. })
    ));
    let flag = column(5, "read", CustomColumnKind::Boolean, false);
    assert!(matches!(column_value(&flag, &vec![StoredValue::Integer(2)], "db"), Ok(Some(ColumnValue::Boolean(Some(true))))));
    assert!(matches!(column_value(&flag, &vec![StoredValue::Null], "db"), Ok(Some(ColumnValue::Boolean(None)))));
    let count = column(6, "count", CustomColumnKind::Integer, false);
    assert!(matches!(column_value(&count, &vec![StoredValue::Integer(9)], "db"), Ok(Some(ColumnValue::Integer(9)))));
    let score = column(7, "score", CustomColumnKind::Float, false);
    assert!(matches!(column_value(&score, &vec![StoredValue::Real, StoredValue::Integer(2)], "db"), Ok(Some(ColumnValue::Real))));
    assert!(matches!(column_value(&score, &vec![StoredValue::Text("x".into())], "db"), Err(Error::InvalidLibrary { .. })));
}

#[test]
fn audit_report_counts_books_and_reached_formats() {
    let empty = audit_report(Vec::new(), &Vec::new());
    assert_eq!((empty.books_checked, empty.formats_checked, empty.issues.len()), (0, 0, 0));
    assert!(empty.is_clean());
    let integrity = integrity_issues(&vec!["ok".to_string(), "page 3 broken".to_string()], "db");
    let books = vec![observed("A/T (7)", true), observed("A/T (8)", false)];
    let report = audit_report(integrity, &books);
    assert_eq!(report.books_checked, 2);
    assert_eq!(report.formats_checked, 4);
    let kinds = report.issues.iter().map(|i| i.kind).collect::<Vec<_>>();
    assert_eq!(kinds[0], AuditIssueKind::DatabaseIntegrity);
    assert_eq!(kinds.len(), 1 + 4 + 1);
    assert_eq!(kinds[5], AuditIssueKind::MissingBookDirectory);
}
