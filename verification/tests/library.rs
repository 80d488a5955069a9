use calibre::schema::{missing_required_column, schema_requirements};
use calibre::library::{ensure_clear, CALIBRE_APPLICATION_ID, SUPPORTED_SCHEMA_VERSION};
use calibre::trash::TrashEntryKind;
use calibre::{
    BookFilter, BookId, BookOrder, BookQuery, BookSort, DeletionMode, Error, FormatFile, Library,
    LibraryInspection, OpenMode, OpenOptions, PageRequest, Rating, SortDirection,
};

fn inspection() -> LibraryInspection {
    LibraryInspection {
        root: "/lib".into(),
        root_is_dir: true,
        database_is_file: true,
        application_id: CALIBRE_APPLICATION_ID,
        schema_version: SUPPORTED_SCHEMA_VERSION,
        missing_column: None,
        active_custom_columns: false,
        full_text_search: false,
        recovery_pending: false,
    }
}

fn writable() -> Library {
    Library::from_inspection(inspection(), OpenOptions::new().read_write(true)).unwrap()
}

#[test]
fn options() {
    let options = OpenOptions::new();
    assert_eq!(options.mode, OpenMode::ReadOnly);
    assert_eq!(options.busy_timeout_ms, 5000);
    let options = options.read_write(true).busy_timeout(250);
    assert_eq!(options.mode, OpenMode::ReadWrite);
    assert_eq!(options.busy_timeout_ms, 250);
    assert_eq!(OpenOptions::default().mode, OpenMode::ReadOnly);
}

#[test]
fn accepts_supported_libraries() {
    let library = writable();
    assert_eq!(library.root(), "/lib");
    assert_eq!(library.database(), "/lib/metadata.db");
    assert_eq!(library.mode(), OpenMode::ReadWrite);
    assert_eq!(library.compatibility().schema_version, 27);
    assert_eq!(library.compatibility().supported_schema_versions, "27");
    let caps = library.capabilities();
    assert!(caps.read_books && caps.write_books && caps.write_formats && caps.permanent_delete && caps.calibre_trash);
    assert!(!caps.write_custom_columns && !caps.recovery_required);
    assert!(library.ensure_writable("w").is_ok());
}

#[test]
fn rejects_unknown_schema() {
    let mut i = inspection();
    i.schema_version = 999;
    match Library::from_inspection(i, OpenOptions::new()) {
        Err(Error::UnsupportedSchema { detected, .. }) => assert_eq!(detected, 999),
        other => panic!("newer schema must be rejected: {:?}", other.map(|_| ())),
    }
}

#[test]
fn rejects_invalid_libraries() {
    let mut i = inspection();
    i.application_id = 0;
    assert!(matches!(Library::from_inspection(i, OpenOptions::new()), Err(Error::InvalidLibrary { .. })));
    let mut i = inspection();
    i.missing_column = Some("books.uuid".into());
    assert!(matches!(Library::from_inspection(i, OpenOptions::new()), Err(Error::InvalidLibrary { .. })));
    let mut i = inspection();
    i.root_is_dir = false;
    assert!(matches!(Library::from_inspection(i, OpenOptions::new()), Err(Error::InvalidLibrary { .. })));
}

#[test]
fn capabilities_follow_deferred_state() {
    let read_only = Library::from_inspection(inspection(), OpenOptions::new()).unwrap();
    assert!(!read_only.capabilities().write_books);
    assert!(matches!(read_only.ensure_writable("w"), Err(Error::UnsupportedOperation { .. })));
    let mut i = inspection();
    i.full_text_search = true;
    let fts = Library::from_inspection(i, OpenOptions::new().read_write(true)).unwrap();
    assert!(fts.capabilities().write_books && !fts.capabilities().write_formats && !fts.capabilities().calibre_trash);
    let mut i = inspection();
    i.recovery_pending = true;
    let pending = Library::from_inspection(i, OpenOptions::new().read_write(true)).unwrap();
    assert!(!pending.capabilities().write_books && pending.capabilities().recovery_required);
    assert!(matches!(ensure_clear(true, "w"), Err(Error::UnsupportedOperation { .. })));
    assert!(ensure_clear(false, "w").is_ok());
}

#[test]
fn handles_share_the_library() {
    let library = writable();
    assert_eq!(library.books().library().root(), "/lib");
    assert_eq!(library.formats().library().root(), "/lib");
    assert_eq!(library.covers().library().root(), "/lib");
    assert_eq!(library.trash().library().root(), "/lib");
    assert_eq!(library.auditor().library().root(), "/lib");
    assert_eq!(library.custom_columns().library().root(), "/lib");
    assert!(library.books().check_removal(DeletionMode::Permanent).is_ok());
    assert!(library.books().check_removal(DeletionMode::Trash).is_ok());
    let read_only = Library::from_inspection(inspection(), OpenOptions::new()).unwrap();
    assert!(matches!(read_only.books().check_removal(DeletionMode::Trash), Err(Error::UnsupportedOperation { .. })));
    assert!(matches!(read_only.books().check_removal(DeletionMode::Permanent), Err(Error::UnsupportedOperation { .. })));
    let mut with_columns = inspection();
    with_columns.active_custom_columns = true;
    let with_columns = Library::from_inspection(with_columns, OpenOptions::new().read_write(true)).unwrap();
    assert!(matches!(with_columns.books().check_removal(DeletionMode::Trash), Err(Error::UnsupportedOperation { .. })));
}

#[test]
fn query_builders() {
    let query = BookQuery::default()
        .filter(BookFilter::TitleContains("dune".into()))
        .order_by(vec![BookOrder::descending(BookSort::Id)])
        .page(PageRequest { limit: 5, offset: 10 });
    assert_eq!(query.filters.len(), 1);
    assert_eq!(query.order, vec![BookOrder::new(BookSort::Id, SortDirection::Descending)]);
    assert_eq!(query.page.limit, 5);
    assert_eq!(BookQuery::default().order, vec![BookOrder::ascending(BookSort::Title)]);
    assert_eq!(PageRequest::default().limit, 100);
    assert_eq!(FormatFile::new("/tmp/a.epub").path(), "/tmp/a.epub");
}

#[test]
fn ratings_and_ids() {
    assert_eq!(Rating::new(10).unwrap().get(), 10);
    assert!(matches!(Rating::new(0), Err(Error::InvalidInput { field: "rating", .. })));
    assert!(matches!(Rating::new(11), Err(Error::InvalidInput { field: "rating", .. })));
    let five = Rating::new(5).unwrap();
    assert_eq!(Rating::new(five.get()).unwrap(), five);
    assert_eq!(BookId::new(3).get(), 3);
}

#[test]
fn trash_paths_and_expiry() {
    let library = writable();
    let trash = library.trash();
    assert_eq!(trash.book_path(BookId::new(12)).unwrap(), "/lib/.caltrash/b/12");
    assert!(matches!(trash.book_path(BookId::new(0)), Err(Error::InvalidInput { .. })));
    assert_eq!(trash.delete_entry(false, BookId::new(2), TrashEntryKind::Formats, true).unwrap().unwrap(), ".caltrash/f/2");
    assert_eq!(trash.delete_entry(false, BookId::new(0), TrashEntryKind::Formats, false).unwrap(), None);
    assert!(matches!(
        trash.delete_entry(false, BookId::new(0), TrashEntryKind::Formats, true),
        Err(Error::InvalidInput { field: "book ID", .. })
    ));
    assert!(matches!(trash.delete_entry(true, BookId::new(2), TrashEntryKind::Book, true), Err(Error::UnsupportedOperation { .. })));
    let second: u128 = 1_000_000_000;
    let day = 24 * 60 * 60 * second;
    let now = 2_000_000 * second;
    let modified = vec![now - 15 * day, now - day, now + 10];
    assert_eq!(trash.expire_older_than(false, now, day, &vec![now - day + 1, now - day]).unwrap(), vec![false, true]);
    assert_eq!(trash.expire_default(false, now, &modified).unwrap(), vec![true, false, false]);
    assert_eq!(trash.expire_older_than(false, now, day, &modified).unwrap(), vec![true, true, false]);
    assert_eq!(trash.clear(false, now, &modified).unwrap(), vec![true, true, true]);
    let read_only = Library::from_inspection(inspection(), OpenOptions::new()).unwrap();
    assert!(matches!(read_only.trash().clear(false, now, &modified), Err(Error::UnsupportedOperation { .. })));
    assert!(matches!(read_only.trash().delete_entry(false, BookId::new(2), TrashEntryKind::Book, true), Err(Error::UnsupportedOperation { .. })));
    assert!(trash.check_write("t").is_ok());
    assert!(matches!(
        trash.copy_book_to(BookId::new(12), "/lib/.caltrash/b/12/copy"),
        Err(Error::InvalidInput { .. })
    ));
    assert_eq!(trash.copy_book_to(BookId::new(12), "/elsewhere").unwrap(), "/lib/.caltrash/b/12");
}

#[test]
fn covers_and_format_paths() {
    let library = writable();
    assert_eq!(library.covers().path("A/T (1)", true).unwrap().as_deref(), Some("/lib/A/T (1)/cover.jpg"));
    assert_eq!(library.covers().path("A/T (1)", false).unwrap(), None);
    assert!(matches!(library.covers().path("../x", true), Err(Error::PathEscape { .. })));
}

#[test]
fn error_messages() {
    let e = Error::NotFound { entity: "book", id: 4 };
    assert_eq!(e.message(), "book 4 was not found");
    let e = Error::UnsupportedSchema { operation: "open library", detected: 999, supported: "exactly version 27" };
    assert_eq!(e.message(), "open library is unsupported for schema 999; supported: exactly version 27");
    let e = Error::InvalidInput { field: "rating", reason: "bad".into() };
    assert_eq!(e.message(), "invalid rating: bad");
}

#[test]
fn schema_requirements_name_the_first_missing_column() {
    let requirements = schema_requirements();
    assert_eq!(requirements.len(), 18);
    assert_eq!(requirements[0].table, "books");
    assert_eq!(requirements[0].columns[0], "id");
    assert_eq!(requirements[17].table, "books_pages_link");
    let mut existing = requirements.iter().map(|r| r.columns.clone()).collect::<Vec<_>>();
    assert_eq!(missing_required_column(&existing), None);
    existing[4].retain(|column| column != "sort");
    existing[9].retain(|column| column != "name");
    assert_eq!(missing_required_column(&existing).as_deref(), Some("publishers.sort"));
    existing[0].push("extra".into());
    existing[4].push("sort".into());
    assert_eq!(missing_required_column(&existing).as_deref(), Some("data.name"));
}
