use calibre::journal::{
    asset_after_file, asset_recovery_direction, book_move_record, check_asset_location, cover_removal_record,
    cover_write_record, expected_asset_database, format_name_from_asset, format_removal_record,
    format_write_record, journal_v2_entry, mark_cover_ready, mark_format_ready, same_state,
    trash_change_record, validate_asset_record, validate_book_move_record, validate_trash_record,
    AssetDatabaseRecord, AssetDatabaseState, AssetPhase, FormatRecoveryState, FormatSnapshot,
    JournalV2, OperationV2, TrashAssetKind, TrashDirection, TrashListingRecord, V2_VERSION,
};
use calibre::books::FormatRename;
use calibre::recovery::{
    decode_hex, decode_path, encode_hex, encode_path, is_v1_journal, parse_book_id,
    parse_v1_journal, positive_book_id, recovery_directory, v1_journal_text, MAX_JOURNAL_BYTES,
};
use calibre::{BookId, Error, RecoveryOperation};

fn state(format: &str, size: i64, stem: &str) -> FormatRecoveryState {
    FormatRecoveryState { format: format.into(), size, stem: stem.into() }
}

#[test]
fn hex_round_trip() {
    let bytes = vec![0u8, 1, 0x7f, 0x80, 0xff];
    let encoded = encode_hex(&bytes);
    let text: String = encoded.iter().collect();
    assert_eq!(text, "00017f80ff");
    assert_eq!(decode_hex(&encoded), Some(bytes));
    assert_eq!(decode_hex(&"ABcd".chars().collect()), Some(vec![0xab, 0xcd]));
    assert_eq!(decode_hex(&"abc".chars().collect()), None);
    assert_eq!(decode_hex(&"zz".chars().collect()), None);
}

#[test]
fn journal_paths_round_trip() {
    let path = "Zoë/Title (1)/book.epub";
    let encoded = encode_path(path);
    assert_eq!(&encoded[..2], "5a");
    assert_eq!(decode_path(&encoded, "j").unwrap(), path);
    assert!(matches!(decode_path("abc", "j"), Err(Error::InvalidLibrary { .. })));
    assert!(matches!(decode_path("ff", "j"), Err(Error::InvalidLibrary { .. })));
    assert!(matches!(decode_path(&encode_path("../x"), "j"), Err(Error::PathEscape { .. })));
}

#[test]
fn journal_book_ids_are_positive() {
    assert_eq!(parse_book_id("42", "j").unwrap().get(), 42);
    assert!(matches!(parse_book_id("0", "j"), Err(Error::InvalidLibrary { .. })));
    assert!(matches!(parse_book_id("-3", "j"), Err(Error::InvalidLibrary { .. })));
    assert!(matches!(parse_book_id("x", "j"), Err(Error::InvalidLibrary { .. })));
    assert!(positive_book_id(5, "j").is_ok());
}

#[test]
fn v1_operations_have_names() {
    assert_eq!(RecoveryOperation::BookAdd.v1_name(), "book-add");
    assert_eq!(RecoveryOperation::PermanentBookRemoval.v1_name(), "book-remove");
    assert_eq!(RecoveryOperation::parse_v1("book-add"), Some(RecoveryOperation::BookAdd));
    assert_eq!(RecoveryOperation::parse_v1("book-move"), None);
}

#[test]
fn v1_journal_round_trip() {
    let text = v1_journal_text(
        RecoveryOperation::PermanentBookRemoval,
        BookId::new(9),
        "Author/Title (9)",
        Some(".calibre-rs-delete-x"),
    )
    .unwrap();
    assert!(text.starts_with("calibre-rs-recovery-v1\nbook-remove\n9\n"));
    assert!(is_v1_journal(text.as_bytes()));
    let parsed = parse_v1_journal(text.into_bytes(), "id", "j").unwrap();
    assert_eq!(parsed.entry.journal_id, "id");
    assert_eq!(parsed.entry.operation, RecoveryOperation::PermanentBookRemoval);
    assert_eq!(parsed.entry.book_id.get(), 9);
    assert_eq!(parsed.entry.relative_path, "Author/Title (9)");
    assert_eq!(parsed.staged_path.as_deref(), Some(".calibre-rs-delete-x"));

    let add = v1_journal_text(RecoveryOperation::BookAdd, BookId::new(3), "A/T (3)", None).unwrap();
    assert!(add.ends_with("\n-\n"));
    let parsed = parse_v1_journal(add.replace('\n', "\r\n").into_bytes(), "id", "j").unwrap();
    assert_eq!(parsed.entry.operation, RecoveryOperation::BookAdd);
    assert_eq!(parsed.staged_path, None);
}

#[test]
fn v1_journal_errors() {
    assert!(matches!(
        v1_journal_text(RecoveryOperation::BookAdd, BookId::new(1), "../x", None),
        Err(Error::PathEscape { .. })
    ));
    assert!(matches!(parse_v1_journal(vec![0xff, 0xfe], "id", "j"), Err(Error::InvalidLibrary { .. })));
    let removal_without_staged = format!(
        "calibre-rs-recovery-v1\nbook-remove\n1\n{}\n-\n",
        encode_path("A/T (1)")
    );
    assert!(matches!(
        parse_v1_journal(removal_without_staged.into_bytes(), "id", "j"),
        Err(Error::InvalidLibrary { .. })
    ));
    let four_lines = "calibre-rs-recovery-v1\nbook-add\n1\n-\n";
    assert!(matches!(parse_v1_journal(four_lines.into(), "id", "j"), Err(Error::InvalidLibrary { .. })));
    assert!(!is_v1_journal(b"{\"version\":2}"));
}

#[test]
fn asset_records_are_written_valid() {
    let mut record = format_write_record(
        "A/T (1)/T - A.epub",
        "A/T (1)/.calibre-rs-backup-1",
        "A/T (1)/.calibre-rs-stage-1",
        true,
        Some(state("EPUB", 10, "T - A")),
        "EPUB",
        "T - A",
    )
    .unwrap();
    assert_eq!(record.phase, AssetPhase::Staging);
    assert!(validate_asset_record(&record, "j").is_ok());
    assert!(asset_after_file(&record));
    assert_eq!(format_name_from_asset(&record, "db").unwrap(), "EPUB");
    mark_format_ready(&mut record, 12).unwrap();
    assert_eq!(record.phase, AssetPhase::Ready);
    assert!(validate_asset_record(&record, "j").is_ok());
    match &record.database {
        AssetDatabaseRecord::Format { after: Some(after), .. } => assert_eq!(after.size, Some(12)),
        _ => panic!("format record expected"),
    }
    let mut cover = cover_write_record("A/T (1)/cover.jpg", "A/T (1)/.b", "A/T (1)/.s", false, false).unwrap();
    assert!(matches!(mark_format_ready(&mut cover, 1), Err(Error::UnsupportedOperation { .. })));
    assert!(mark_cover_ready(&mut cover).is_ok());
    assert_eq!(cover.phase, AssetPhase::Ready);
    let removal = cover_removal_record("A/T (1)/cover.jpg", "A/T (1)/.b", true).unwrap();
    assert_eq!(removal.phase, AssetPhase::Ready);
    assert!(matches!(removal.database, AssetDatabaseRecord::Cover { before: true, after: false }));
    assert!(!asset_after_file(&removal));
    assert!(validate_asset_record(&removal, "j").is_ok());
    assert!(matches!(
        format_write_record("../x", "b", "c", false, None, "EPUB", "s"),
        Err(Error::PathEscape { .. })
    ));
}

#[test]
fn asset_records_reject_bad_paths() {
    let mut record = format_removal_record("A/T (1)/x.epub", "B/.backup", true, state("EPUB", 1, "x")).unwrap();
    assert!(matches!(validate_asset_record(&record, "j"), Err(Error::InvalidLibrary { .. })));
    record.backup = record.destination.clone();
    assert!(matches!(validate_asset_record(&record, "j"), Err(Error::InvalidLibrary { .. })));
    let mut ready = format_write_record("d/x.epub", "d/.b", "d/.b", false, None, "EPUB", "x").unwrap();
    assert!(matches!(validate_asset_record(&ready, "j"), Err(Error::InvalidLibrary { .. })));
    ready.staged = Some(encode_path("d/.s"));
    ready.phase = AssetPhase::Ready;
    assert!(matches!(validate_asset_record(&ready, "j"), Err(Error::InvalidLibrary { .. })));
}

#[test]
fn staging_records_roll_back() {
    let record = format_write_record("d/x.epub", "d/.b", "d/.s", false, None, "EPUB", "x").unwrap();
    let current = AssetDatabaseState::Format(None);
    assert_eq!(asset_recovery_direction(&record, &current, "j").unwrap(), false);
    let other = AssetDatabaseState::Format(Some(state("EPUB", 3, "x")));
    assert!(matches!(
        asset_recovery_direction(&record, &other, "j"),
        Err(Error::UnsupportedOperation { .. })
    ));
}

#[test]
fn ready_records_follow_the_database() {
    let mut record = format_write_record(
        "d/x.epub",
        "d/.b",
        "d/.s",
        true,
        Some(state("EPUB", 3, "x")),
        "EPUB",
        "x",
    )
    .unwrap();
    // A ready record without its size cannot be compared with the database.
    record.phase = AssetPhase::Ready;
    let old = AssetDatabaseState::Format(Some(state("EPUB", 3, "x")));
    assert!(matches!(asset_recovery_direction(&record, &old, "j"), Err(Error::InvalidLibrary { .. })));
    record.phase = AssetPhase::Staging;
    mark_format_ready(&mut record, 7).unwrap();
    let new = AssetDatabaseState::Format(Some(state("EPUB", 7, "x")));
    assert_eq!(asset_recovery_direction(&record, &new, "j").unwrap(), true);
    assert_eq!(asset_recovery_direction(&record, &old, "j").unwrap(), false);
    let neither = AssetDatabaseState::Format(None);
    assert!(matches!(
        asset_recovery_direction(&record, &neither, "j"),
        Err(Error::UnsupportedOperation { .. })
    ));
    assert!(same_state(&new, &AssetDatabaseState::Format(Some(state("EPUB", 7, "x")))));
    assert_eq!(expected_asset_database(&record, true, "j").map(|s| same_state(&s, &new)).unwrap(), true);
}

#[test]
fn cover_replacement_with_cover_on_both_sides_rolls_forward() {
    let mut record = cover_write_record("d/cover.jpg", "d/.b", "d/.s", true, true).unwrap();
    mark_cover_ready(&mut record).unwrap();
    let current = AssetDatabaseState::Cover(true);
    assert_eq!(asset_recovery_direction(&record, &current, "j").unwrap(), true);
    let cleared = AssetDatabaseState::Cover(false);
    assert!(asset_recovery_direction(&record, &cleared, "j").is_err());
}

#[test]
fn version_2_journals_become_entries() {
    let record = format_write_record("d/x.epub", "d/.b", "d/.s", false, None, "EPUB", "x").unwrap();
    let journal = JournalV2 { version: V2_VERSION, book_id: 4, operation: OperationV2::Asset(record.clone()) };
    let entry = journal_v2_entry(&journal, "abc", "j").unwrap();
    assert_eq!(entry.operation, RecoveryOperation::FormatChange);
    assert_eq!(entry.book_id.get(), 4);
    assert_eq!(entry.relative_path, "d/x.epub");
    assert_eq!(entry.journal_id, "abc");
    let wrong_version = JournalV2 { version: 3, book_id: 4, operation: OperationV2::Asset(record.clone()) };
    assert!(matches!(journal_v2_entry(&wrong_version, "abc", "j"), Err(Error::InvalidLibrary { .. })));
    let bad_book = JournalV2 { version: 2, book_id: 0, operation: OperationV2::Asset(record) };
    assert!(matches!(journal_v2_entry(&bad_book, "abc", "j"), Err(Error::InvalidLibrary { .. })));
}

#[test]
fn book_move_records() {
    let renames = vec![FormatRename { from: "Old - A.epub".into(), to: "New - A.epub".into() }];
    let record = book_move_record("A/Old (1)", "A/New (1)", "New - A", &renames).unwrap();
    assert!(validate_book_move_record(&record, "j").is_ok());
    let journal = JournalV2 { version: 2, book_id: 1, operation: OperationV2::BookMove(record) };
    let entry = journal_v2_entry(&journal, "m", "j").unwrap();
    assert_eq!(entry.operation, RecoveryOperation::BookMove);
    assert_eq!(entry.relative_path, "A/Old (1)");
    let bad = vec![FormatRename { from: "dir/x.epub".into(), to: "y.epub".into() }];
    assert!(matches!(book_move_record("a", "b", "s", &bad), Err(Error::PathEscape { .. })));
}

#[test]
fn trash_records() {
    let record = trash_change_record(
        "A/T (5)/T - A.epub",
        ".caltrash/f/5/epub",
        Some(".caltrash/f/5/.calibre-rs-prior-1"),
        TrashDirection::ToTrash,
        TrashAssetKind::Format { format: "EPUB".into() },
        Some(TrashListingRecord { title: "T".into(), authors: vec!["A".into()] }),
    )
    .unwrap();
    assert!(validate_trash_record(&record, BookId::new(5), "j").is_ok());
    assert!(matches!(validate_trash_record(&record, BookId::new(6), "j"), Err(Error::InvalidLibrary { .. })));
    let mut unlisted = record.clone();
    unlisted.listing = None;
    assert!(matches!(validate_trash_record(&unlisted, BookId::new(5), "j"), Err(Error::InvalidLibrary { .. })));
    let mut lower = record.clone();
    lower.kind = TrashAssetKind::Format { format: "epub".into() };
    assert!(matches!(validate_trash_record(&lower, BookId::new(5), "j"), Err(Error::InvalidLibrary { .. })));
    let mut bad_prior = record.clone();
    bad_prior.previous = Some(encode_path(".caltrash/f/5/other"));
    assert!(matches!(validate_trash_record(&bad_prior, BookId::new(5), "j"), Err(Error::InvalidLibrary { .. })));
    let book = trash_change_record(
        "A/T (5)",
        ".caltrash/b/5",
        None,
        TrashDirection::FromTrash,
        TrashAssetKind::Book,
        None,
    )
    .unwrap();
    let journal = JournalV2 { version: 2, book_id: 5, operation: OperationV2::Trash(book) };
    let entry = journal_v2_entry(&journal, "t", "j").unwrap();
    assert_eq!(entry.operation, RecoveryOperation::TrashChange);
    assert_eq!(entry.relative_path, "A/T (5)");
}

#[test]
fn snapshots_complete_with_size() {
    let s = FormatSnapshot::complete(state("PDF", 4, "x"));
    assert_eq!(s.size, Some(4));
    let partial = FormatSnapshot { format: "PDF".into(), size: None, stem: "x".into() };
    assert!(matches!(partial.to_complete("j"), Err(Error::InvalidLibrary { .. })));
}

#[test]
fn asset_records_point_into_their_book() {
    let record = format_write_record(
        "A/T (1)/T - A.epub",
        "A/T (1)/.calibre-rs-backup-1",
        "A/T (1)/.calibre-rs-stage-1",
        false,
        None,
        "EPUB",
        "T - A",
    )
    .unwrap();
    assert!(check_asset_location(&record, "A/T (1)", "db").is_ok());
    assert!(matches!(check_asset_location(&record, "A/Other (2)", "db"), Err(Error::PathEscape { .. })));
    let renamed = format_write_record("A/T (1)/other.epub", "A/T (1)/.b", "A/T (1)/.s", false, None, "EPUB", "T - A").unwrap();
    assert!(matches!(check_asset_location(&renamed, "A/T (1)", "db"), Err(Error::InvalidLibrary { .. })));
    let cover = cover_write_record("A/T (1)/cover.jpg", "A/T (1)/.b", "A/T (1)/.s", true, true).unwrap();
    assert!(check_asset_location(&cover, "A/T (1)", "db").is_ok());
    let misplaced = cover_write_record("A/T (1)/front.jpg", "A/T (1)/.b", "A/T (1)/.s", true, true).unwrap();
    assert!(matches!(check_asset_location(&misplaced, "A/T (1)", "db"), Err(Error::InvalidLibrary { .. })));
}

#[test]
fn journals_live_under_the_recovery_directory() {
    assert_eq!(recovery_directory(), ".calibre-rs/recovery");
    assert_eq!(MAX_JOURNAL_BYTES, 1_048_576);
}

#[test]
fn undecodable_journal_paths_name_the_journal() {
    match decode_path("abc", "journal-1") {
        Err(Error::InvalidLibrary { path, .. }) => assert_eq!(path, "journal-1"),
        other => panic!("odd-length text is refused: {other:?}"),
    }
    assert!(matches!(decode_path("zz", "j"), Err(Error::InvalidLibrary { .. })));
    assert!(matches!(decode_path("ff", "j"), Err(Error::InvalidLibrary { .. })));
    match decode_path(&encode_path("/abs"), "j") {
        Err(Error::PathEscape { path, .. }) => assert_eq!(path, "/abs"),
        other => panic!("a rooted path is refused: {other:?}"),
    }
}
