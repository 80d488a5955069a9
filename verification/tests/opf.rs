use calibre::opf::{escape_attribute, escape_text, parse, serialize, serialize_with_uuid, OpfMetadata, OpfSeries};
use calibre::{Author, AuthorId, BookId, Error, Identifier, Language, Rating, Tag};

fn book() -> OpfMetadata {
    OpfMetadata {
        id: BookId::new(7),
        title: "A <title> & test".into(),
        authors: Vec::new(),
        uuid: Some("uuid-value".into()),
        identifiers: Vec::new(),
        publication_date: Some("0800-01-01 00:00:00+00:00".into()),
        comments: Some("<p>hello & goodbye</p>".into()),
        publisher: None,
        languages: Vec::new(),
        tags: Vec::new(),
        series: None,
        rating: Some(Rating::new(8).expect("rating")),
        timestamp: Some("2026-01-02 03:04:05+00:00".into()),
        sort: Some("title sort".into()),
        author_sort: Some("Homer".into()),
        last_modified: "2026-01-02 03:04:06+00:00".into(),
    }
}

#[test]
fn generated_xml_is_well_formed_and_round_trips_core_values() {
    let mut source = book();
    source.authors.push(Author {
        id: AuthorId::new(1),
        name: "Homer & Co.".into(),
        sort: Some("Homer".into()),
        link: String::new(),
    });
    let xml = serialize(&source);
    let parsed = parse(&xml, "metadata.opf", source.id).expect("parse generated OPF");
    assert_eq!(parsed.title, source.title);
    assert_eq!(parsed.authors, vec!["Homer & Co."]);
    assert_eq!(parsed.comments, source.comments);
    assert_eq!(parsed.rating, source.rating);
}

#[test]
fn escaping_covers_markup_quotes_and_invalid_characters() {
    assert_eq!(escape_text("a<b>&c"), "a&lt;b&gt;&amp;c");
    assert_eq!(escape_text("q\"'"), "q\"'");
    assert_eq!(escape_text("bell\u{7}"), "bell\u{FFFD}");
    assert_eq!(escape_text("tab\tok"), "tab\tok");
    assert_eq!(escape_attribute("say \"hi\" 'x'"), "say &quot;hi&quot; &apos;x&apos;");
}

#[test]
fn every_field_round_trips() {
    let mut source = book();
    source.authors.push(Author { id: AuthorId::new(1), name: "First".into(), sort: None, link: String::new() });
    source.authors.push(Author { id: AuthorId::new(2), name: "Second".into(), sort: Some("Second, S".into()), link: String::new() });
    source.identifiers.push(Identifier { kind: "isbn".into(), value: "978".into() });
    source.languages.push(Language { id: 1, code: "eng".into(), link: String::new() });
    source.tags.push(Tag { id: 1, name: "fantasy".into(), link: String::new() });
    source.series = Some(OpfSeries { name: "Saga".into(), index: "2.5".into() });
    let xml = serialize_with_uuid(&source, "u-1");
    assert!(xml.contains("<dc:identifier opf:scheme=\"ISBN\">978</dc:identifier>"));
    assert!(xml.contains("<dc:creator opf:file-as=\"First\" opf:role=\"aut\">First</dc:creator>"));
    assert!(xml.contains("<meta name=\"calibre:rating\" content=\"8\"/>"));
    let parsed = parse(&xml, "metadata.opf", BookId::new(7)).unwrap();
    assert_eq!(parsed.authors, vec!["First", "Second"]);
    assert_eq!(parsed.author_sort.as_deref(), Some("First"));
    assert_eq!(parsed.uuid.as_deref(), Some("u-1"));
    assert_eq!(parsed.identifiers.len(), 1);
    assert_eq!(parsed.identifiers[0].kind, "isbn");
    assert_eq!(parsed.identifiers[0].value, "978");
    assert_eq!(parsed.languages, vec!["eng"]);
    assert_eq!(parsed.tags, vec!["fantasy"]);
    assert_eq!(parsed.series.as_deref(), Some("Saga"));
    assert_eq!(parsed.series_index.as_deref(), Some("2.5"));
    assert_eq!(parsed.sort.as_deref(), Some("title sort"));
    assert_eq!(parsed.timestamp.as_deref(), Some("2026-01-02 03:04:05+00:00"));
    assert_eq!(parsed.publication_date.as_deref(), Some("0800-01-01 00:00:00+00:00"));
}

#[test]
fn fresh_uuid_when_missing() {
    let mut source = book();
    source.uuid = None;
    let xml = serialize(&source);
    let parsed = parse(&xml, "metadata.opf", BookId::new(7)).unwrap();
    let uuid = parsed.uuid.expect("uuid");
    assert_eq!(uuid.len(), 36);
}

#[test]
fn parse_errors() {
    match parse("<not xml", "trash/1/metadata.opf", BookId::new(1)) {
        Err(Error::InvalidLibrary { path, .. }) => assert_eq!(path, "trash/1/metadata.opf"),
        other => panic!("invalid XML is refused: {other:?}"),
    }
    assert!(matches!(parse("<package/>", "m", BookId::new(1)), Err(Error::InvalidLibrary { .. })));
    let xml = serialize(&book());
    assert!(matches!(parse(&xml, "m", BookId::new(8)), Err(Error::InvalidLibrary { .. })));
    let unsupported = xml.replace(
        "<meta name=\"calibre:timestamp\"",
        "<meta name=\"calibre:user_metadata\" content=\"{}\"/><meta name=\"calibre:timestamp\"",
    );
    assert!(matches!(parse(&unsupported, "m", BookId::new(7)), Err(Error::UnsupportedOperation { .. })));
    let bad_rating = xml.replace("content=\"8\"", "content=\"11\"");
    assert!(matches!(parse(&bad_rating, "m", BookId::new(7)), Err(Error::InvalidLibrary { .. })));
    let not_number = xml.replace("content=\"8\"", "content=\"eight\"");
    assert!(matches!(parse(&not_number, "m", BookId::new(7)), Err(Error::InvalidLibrary { .. })));
}

#[test]
fn missing_title_and_authors_read_as_unknown() {
    let xml = "<package xmlns=\"http://www.idpf.org/2007/opf\"><metadata xmlns:dc=\"http://purl.org/dc/elements/1.1/\" xmlns:opf=\"http://www.idpf.org/2007/opf\"><dc:identifier opf:scheme=\"calibre\">3</dc:identifier><dc:creator opf:role=\"edt\">Editor</dc:creator></metadata></package>";
    let parsed = parse(xml, "m", BookId::new(3)).unwrap();
    assert_eq!(parsed.title, "Unknown");
    assert_eq!(parsed.authors, vec!["Unknown"]);
    assert_eq!(parsed.author_sort, None);
}
