use calibre::ordering::{order_by_id, order_by_text, text_le_exec};
use calibre::paths::{
    book_relative_path, components, extension, file_name, format_file_name, format_from_path,
    format_name, format_stem, private_sibling, same_parent, same_path, sanitize_component,
    sibling_path, validate_filename, validate_relative,
};
use calibre::Error;

fn text(chars: Vec<char>) -> String {
    chars.into_iter().collect()
}

#[test]
fn rejects_parent_paths() {
    assert!(validate_relative("../outside").is_err());
}

#[test]
fn relative_path_rules() {
    assert!(validate_relative("Author/Title (1)").is_ok());
    assert!(validate_relative("a/./b").is_ok());
    assert!(matches!(validate_relative(""), Err(Error::PathEscape { .. })));
    assert!(matches!(validate_relative("/etc"), Err(Error::PathEscape { .. })));
    assert!(matches!(validate_relative("./x"), Err(Error::PathEscape { .. })));
    assert!(matches!(validate_relative("a/../b"), Err(Error::PathEscape { .. })));
    match validate_relative("/abs") {
        Err(Error::PathEscape { path, .. }) => assert_eq!(path, "/abs"),
        other => panic!("rooted paths are refused: {other:?}"),
    }
    assert!(validate_relative("a/..b").is_ok());
}

#[test]
fn filenames_are_one_component() {
    assert!(validate_filename("book.epub").is_ok());
    assert!(validate_filename("book.epub/").is_ok());
    assert!(matches!(validate_filename("dir/book.epub"), Err(Error::PathEscape { .. })));
}

#[test]
fn format_names_are_normalized() {
    assert_eq!(format_name("epub").unwrap(), "EPUB");
    assert_eq!(format_name("Mobi7").unwrap(), "MOBI7");
    assert!(matches!(format_name(""), Err(Error::InvalidInput { .. })));
    assert!(matches!(format_name("e-pub"), Err(Error::InvalidInput { .. })));
    assert!(matches!(format_name("abcdefghijklmnopq"), Err(Error::InvalidInput { .. })));
    assert_eq!(format_from_path("/tmp/book.Epub").unwrap(), "EPUB");
    assert!(matches!(format_from_path("/tmp/.bashrc"), Err(Error::InvalidInput { .. })));
    assert!(matches!(format_from_path("/tmp/README"), Err(Error::InvalidInput { .. })));
}

#[test]
fn file_names_and_extensions_follow_path_rules() {
    assert_eq!(text(file_name("a/b/c.txt").unwrap()), "c.txt");
    assert_eq!(text(file_name("a/b/").unwrap()), "b");
    assert!(file_name("a/..").is_none());
    assert!(file_name("/").is_none());
    assert_eq!(text(extension("a/b/c.tar.gz").unwrap()), "gz");
    assert!(extension("a/.hidden").is_none());
}

#[test]
fn sanitized_components_are_portable() {
    assert_eq!(text(sanitize_component("A/B:C*D")), "A_B_C_D");
    assert_eq!(text(sanitize_component("  Title.. ")), "Title");
    assert_eq!(text(sanitize_component("")), "Unknown");
    assert_eq!(text(sanitize_component(" . ")), "Unknown");
    // Compatibility decomposition drops the accent and keeps the base letter.
    assert_eq!(text(sanitize_component("Zoë")), "Zoe");
    assert_eq!(text(sanitize_component("ﬁle")), "file");
    let long = "é".repeat(80);
    let out = text(sanitize_component(&long));
    assert!(out.len() <= 100);
    assert!(!out.is_empty());
    let wide = "界".repeat(40);
    let out = text(sanitize_component(&wide));
    assert_eq!(out, "界".repeat(33));
}

#[test]
fn book_directories_and_format_names() {
    assert_eq!(book_relative_path("The Hobbit", "J. R. R. Tolkien", 7), "J. R. R. Tolkien/The Hobbit (7)");
    assert_eq!(book_relative_path("A/B", "", 12), "Unknown/A_B (12)");
    assert_eq!(format_stem("The Hobbit", "J. R. R. Tolkien"), "The Hobbit - J. R. R. Tolkien");
    assert_eq!(format_file_name("The Hobbit - Tolkien", "EPUB"), "The Hobbit - Tolkien.epub");
}

#[test]
fn components_compare_like_paths() {
    let c: Vec<String> = components("a//b/./c/").into_iter().map(text).collect();
    assert_eq!(c, vec!["a", "b", "c"]);
    assert!(same_path("a//b", "a/b/"));
    assert!(!same_path("a/b", "a/c"));
    assert!(same_parent("x/a.epub", "x/.calibre-rs-backup-1"));
    assert!(!same_parent("x/a.epub", "y/a.epub"));
    assert!(same_parent("a.epub", "b.epub"));
}

#[test]
fn siblings_share_the_directory() {
    assert_eq!(sibling_path("Author/Title (1)/book.epub", "cover.jpg"), "Author/Title (1)/cover.jpg");
    assert_eq!(sibling_path("book.epub", "other"), "other");
    let private = private_sibling("Author/Title (1)/book.epub", "backup");
    assert!(private.starts_with("Author/Title (1)/.calibre-rs-backup-"));
    let id = &private["Author/Title (1)/.calibre-rs-backup-".len()..];
    assert_eq!(id.len(), 36);
    assert_eq!(&id[8..9], "-");
    assert!(id.chars().all(|c| c == '-' || c.is_ascii_digit() || ('a'..='f').contains(&c)));
    assert!(same_parent(&private, "Author/Title (1)/book.epub"));
}

#[test]
fn listings_are_ordered() {
    assert_eq!(order_by_id(&vec![30, 4, 17, 4]), vec![1, 3, 2, 0]);
    assert_eq!(order_by_id(&vec![]), Vec::<usize>::new());
    let names = vec!["PDF".to_string(), "EPUB".to_string(), "AZW3".to_string(), "EPUB2".to_string()];
    assert_eq!(order_by_text(&names), vec![2, 1, 3, 0]);
    assert!(text_le_exec("abc", "abd") && text_le_exec("ab", "abc") && text_le_exec("", ""));
    assert!(!text_le_exec("b", "abc") && !text_le_exec("abc", "ab"));
    assert!(text_le_exec("Z", "a") && text_le_exec("z", "é"));
}
