use calibre::dates::publication_date_value;
use calibre::books::{
    clean_values, escape_like, format_names_for_sources, i64_size, nonempty_or, plan_book_update,
    plan_format_renames, plan_new_book_files, prepare_new_book, validate_languages,
};
use calibre::sorting::{book_author_sort, conservative_author_sort, conservative_title_sort, equal_ignore_ascii_case};
use calibre::{BookId, Error, Format, FormatId};

fn strings(values: &[&str]) -> Vec<String> {
    values.iter().map(|v| v.to_string()).collect()
}

fn format(name: &str, path: &str) -> Format {
    Format { id: FormatId::new(1), format: name.into(), stored_size: 1, file_size: Some(1), path: path.into() }
}

#[test]
fn titles_and_values_are_cleaned() {
    assert_eq!(nonempty_or("  Dune \n", "Unknown"), "Dune");
    assert_eq!(nonempty_or(" \t", "Unknown"), "Unknown");
    assert_eq!(clean_values(&strings(&[" A ", "a", "", "B", "ÉTÉ", "été"]), "Unknown"), strings(&["A", "B", "ÉTÉ"]));
    assert_eq!(clean_values(&strings(&[" ", ""]), "Unknown"), strings(&["Unknown"]));
}

#[test]
fn languages_are_three_letter_codes() {
    assert!(validate_languages(&strings(&["eng", "FRA"])).is_ok());
    assert!(matches!(validate_languages(&strings(&["en"])), Err(Error::InvalidInput { field: "languages", .. })));
    assert!(matches!(validate_languages(&strings(&["e1g"])), Err(Error::InvalidInput { .. })));
}

#[test]
fn like_patterns_are_escaped() {
    assert_eq!(escape_like("100%_a\\b"), "100\\%\\_a\\\\b");
}

#[test]
fn sizes_fit_sqlite() {
    assert_eq!(i64_size(5).unwrap(), 5);
    assert!(matches!(i64_size(u64::MAX), Err(Error::InvalidInput { .. })));
}

#[test]
fn sort_values() {
    assert_eq!(conservative_title_sort("The Hobbit"), "Hobbit, the");
    assert_eq!(conservative_title_sort("An Island"), "Island, an");
    assert_eq!(conservative_title_sort("Dune"), "Dune");
    assert_eq!(conservative_author_sort("Ursula K. Le Guin"), "Guin, Ursula K. Le");
    assert_eq!(conservative_author_sort("Homer"), "Homer");
    assert_eq!(book_author_sort(&strings(&["Frank Herbert", "Homer"])), "Herbert, Frank & Homer");
    assert!(equal_ignore_ascii_case("EPUB", "epub"));
    assert!(!equal_ignore_ascii_case("EPUB", "epub3"));
}

#[test]
fn new_books() {
    let record = prepare_new_book("  The Hobbit ", &strings(&["J. Tolkien", "j. tolkien"]), &strings(&["eng"])).unwrap();
    assert_eq!(record.title, "The Hobbit");
    assert_eq!(record.authors, strings(&["J. Tolkien"]));
    assert_eq!(record.title_sort, "Hobbit, the");
    assert_eq!(record.author_sort, "Tolkien, J.");
    assert!(matches!(prepare_new_book("t", &Vec::new(), &strings(&["english"])), Err(Error::InvalidInput { .. })));
    let files = plan_new_book_files("The Hobbit", "J. Tolkien", BookId::new(4), &strings(&["/x/a.EPUB", "/y/b.txt"])).unwrap();
    assert_eq!(files.relative_path, "J. Tolkien/The Hobbit (4)");
    assert_eq!(files.formats, strings(&["EPUB", "TXT"]));
    assert_eq!(files.file_names, strings(&["The Hobbit - J. Tolkien.epub", "The Hobbit - J. Tolkien.txt"]));
    assert_eq!(format_names_for_sources(&strings(&["a.pdf"])).unwrap(), strings(&["PDF"]));
    assert!(matches!(
        plan_new_book_files("t", "a", BookId::new(1), &strings(&["a.epub", "b.EPUB"])),
        Err(Error::InvalidInput { .. })
    ));
}

#[test]
fn updates_move_and_rename() {
    let formats = vec![
        format("EPUB", "/lib/Old Author/Old (3)/Old - Old Author.epub"),
        format("TXT", "/lib/Old Author/Old (3)/New - Old Author.txt"),
    ];
    let plan = plan_book_update(
        BookId::new(3),
        "Old",
        &strings(&["Old Author"]),
        "Old Author/Old (3)",
        &formats,
        Some(" New "),
        None,
        None,
    )
    .unwrap();
    assert_eq!(plan.title, "New");
    assert_eq!(plan.relative_path, "Old Author/New (3)");
    assert!(plan.should_move);
    assert_eq!(plan.stem, "New - Old Author");
    assert_eq!(plan.renames.len(), 1);
    assert_eq!(plan.renames[0].from, "Old - Old Author.epub");
    assert_eq!(plan.renames[0].to, "New - Old Author.epub");
    assert!(plan.author_sort.is_none());

    let same = plan_book_update(
        BookId::new(3),
        "Old",
        &strings(&["Old Author"]),
        "Old Author//Old (3)",
        &formats,
        None,
        Some(&strings(&["Old Author", "Other"])),
        Some(&strings(&["eng"])),
    )
    .unwrap();
    assert!(!same.should_move);
    assert!(same.renames.is_empty());
    assert_eq!(same.author_sort.as_deref(), Some("Author, Old & Other"));

    assert!(matches!(
        plan_book_update(BookId::new(3), "Old", &strings(&["A"]), "A/Old (3)", &formats, None, None, Some(&strings(&["xx"]))),
        Err(Error::InvalidInput { field: "languages", .. })
    ));
    assert!(matches!(plan_format_renames(&vec![format("EPUB", "/")], "s"), Err(Error::InvalidInput { field: "format path", .. })));
}

#[test]
fn publication_dates_are_checked_and_stored_in_utc() {
    assert_eq!(publication_date_value("2024-02-29").unwrap(), "2024-02-29 00:00:00+00:00");
    assert_eq!(publication_date_value("0800-01-01 00:00:00+00:00").unwrap(), "0800-01-01 00:00:00+00:00");
    assert_eq!(publication_date_value("2020-12-31 23:59:59.123456+00:00").unwrap(), "2020-12-31 23:59:59.123456+00:00");
    for bad in ["", "2024-13-01", "2024-00-10", "2024-01-32", "24-01-01", "2024-01-01T00:00:00+00:00",
        "2024-01-01 24:00:00+00:00", "2024-01-01 00:00:00+01:00", "2024-01-01 00:00:00.+00:00", "2024-01-01 "] {
        assert!(matches!(publication_date_value(bad), Err(calibre::Error::InvalidInput { .. })), "{bad}");
    }
}

#[test]
fn invalid_languages_are_refused_before_authors_are_needed() {
    let none: Vec<String> = Vec::new();
    assert!(matches!(
        plan_book_update(BookId::new(4), "T", &none, "A/T (4)", &Vec::new(), None, None, Some(&strings(&["e1g"]))),
        Err(Error::InvalidInput { field: "languages", .. })
    ));
    let plan = plan_book_update(BookId::new(4), "T", &none, "A/T (4)", &Vec::new(), None, Some(&strings(&["Ann Lee"])), None).unwrap();
    assert_eq!(plan.relative_path, "Ann Lee/T (4)");
}
