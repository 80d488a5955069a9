use calibre::covers::cover_relative;
use calibre::formats::{find_format, plan_format_write, restore_uninstalled_step, FormatRow};
use calibre::journal::FormatRecoveryState;
use calibre::library::{CALIBRE_APPLICATION_ID, SUPPORTED_SCHEMA_VERSION};
use calibre::text::{decimal_string, parse_i64};
use calibre::{Error, Format, FormatId, Library, LibraryInspection, OpenOptions};

fn library(full_text_search: bool) -> Library {
    Library::from_inspection(
        LibraryInspection {
            root: "/lib".into(),
            root_is_dir: true,
            database_is_file: true,
            application_id: CALIBRE_APPLICATION_ID,
            schema_version: SUPPORTED_SCHEMA_VERSION,
            missing_column: None,
            active_custom_columns: false,
            full_text_search,
            recovery_pending: false,
        },
        OpenOptions::new().read_write(true),
    )
    .unwrap()
}

#[test]
fn format_writes_choose_a_stem() {
    let existing = FormatRecoveryState { format: "EPUB".into(), size: 3, stem: "Old Stem".into() };
    let plan = plan_format_write("epub", true, Some(&existing), Some("Row"), "T", Some("A")).unwrap();
    assert_eq!(plan.format, "EPUB");
    assert_eq!(plan.stem, "Old Stem");
    assert_eq!(plan.file_name, "Old Stem.epub");
    assert!(matches!(plan_format_write("epub", false, Some(&existing), None, "T", None), Err(Error::InvalidInput { .. })));
    assert_eq!(plan_format_write("pdf", false, None, Some("Row"), "T", None).unwrap().stem, "Row");
    assert_eq!(plan_format_write("pdf", false, None, None, "T", None).unwrap().stem, "T - Unknown");
    assert!(matches!(plan_format_write("p df", false, None, None, "T", None), Err(Error::InvalidInput { .. })));
}

#[test]
fn format_handles_check_capabilities() {
    let formats = library(false).formats();
    assert_eq!(formats.add("/x/b.azw3", None, None, "T", Some("A")).unwrap().file_name, "T - A.azw3");
    assert!(matches!(formats.add("/x/b", None, None, "T", None), Err(Error::InvalidInput { field: "format path", .. })));
    let existing = FormatRecoveryState { format: "AZW3".into(), size: 3, stem: "Old".into() };
    assert!(matches!(
        formats.add("/x/b.azw3", Some(&existing), None, "T", Some("A")),
        Err(Error::InvalidInput { field: "format", .. })
    ));
    let plan = formats.add("/x/b.pdf", None, Some("First"), "T", Some("A")).unwrap();
    assert_eq!((plan.format.as_str(), plan.stem.as_str(), plan.file_name.as_str()), ("PDF", "First", "First.pdf"));
    let plan = formats.replace("/x/b.azw3", Some(&existing), Some("First"), "T", Some("A")).unwrap();
    assert_eq!(plan.file_name, "Old.azw3");
    let blocked = library(true).formats();
    assert!(matches!(blocked.replace("/x/b.epub", None, None, "T", None), Err(Error::UnsupportedOperation { .. })));
    let rows = vec![FormatRow { id: 9, format: "EPUB".into(), size: -4, stem: "T - A".into() }];
    let listed = formats.list("A/T (1)", &rows, &vec![Some(10)]).unwrap();
    assert_eq!(listed[0].path, "/lib/A/T (1)/T - A.epub");
    assert_eq!(listed[0].stored_size, 0);
    assert_eq!(listed[0].file_size, Some(10));
    assert_eq!(listed[0].id, FormatId::new(9));
}

#[test]
fn finding_and_restoring() {
    let formats = vec![
        Format { id: FormatId::new(1), format: "EPUB".into(), stored_size: 1, file_size: None, path: "a".into() },
        Format { id: FormatId::new(2), format: "Txt".into(), stored_size: 1, file_size: None, path: "b".into() },
    ];
    assert_eq!(find_format(&formats, "txt"), Some(1));
    assert_eq!(find_format(&formats, "pdf"), None);
    assert_eq!(restore_uninstalled_step(false, true, true).unwrap(), true);
    assert_eq!(restore_uninstalled_step(true, false, true).unwrap(), false);
    assert_eq!(restore_uninstalled_step(false, false, false).unwrap(), false);
    assert!(matches!(restore_uninstalled_step(true, true, true), Err(Error::UnsupportedOperation { .. })));
}

#[test]
fn decimal_text_round_trips() {
    for value in [0i64, 7, -42, i64::MAX, i64::MIN] {
        assert_eq!(decimal_string(value), value.to_string());
        assert_eq!(parse_i64(&decimal_string(value)), Some(value));
    }
    assert_eq!(parse_i64("+5"), Some(5));
    assert_eq!(parse_i64("9223372036854775808"), None);
    assert_eq!(parse_i64(""), None);
}

#[test]
fn cover_lives_in_the_book_directory() {
    assert_eq!(cover_relative("Homer/The Odyssey (1)").unwrap(), "Homer/The Odyssey (1)/cover.jpg");
    assert!(matches!(cover_relative("../x"), Err(Error::PathEscape { .. })));
}
