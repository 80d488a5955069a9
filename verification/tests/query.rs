use calibre::query::{order_clause, query_sql, SqlParam};
use calibre::{BookFilter, BookId, BookOrder, BookQuery, BookSort, Error, PageRequest, Rating};

fn texts(params: &[SqlParam]) -> Vec<String> {
    params
        .iter()
        .map(|p| match p {
            SqlParam::Text(s) => format!("t:{s}"),
            SqlParam::Integer(i) => format!("i:{i}"),
        })
        .collect()
}

#[test]
fn default_query_lists_everything_by_title() {
    let q = query_sql(&BookQuery::default()).unwrap();
    assert_eq!(q.condition, "1");
    assert!(q.params.is_empty());
    assert_eq!(q.order, "books.sort COLLATE NOCASE ASC, books.id ASC");
    assert_eq!(q.limit, 100);
    assert_eq!(q.offset, 0);
}

#[test]
fn filters_compose_with_and() {
    let query = BookQuery::default()
        .filter(BookFilter::TitleContains("50%".into()))
        .filter(BookFilter::HasCover(true))
        .filter(BookFilter::Ids(vec![BookId::new(3), BookId::new(9)]))
        .filter(BookFilter::RatingRange { minimum: Rating::new(2).unwrap(), maximum: Rating::new(8).unwrap() });
    let q = query_sql(&query).unwrap();
    assert!(q.condition.starts_with("books.title LIKE ? ESCAPE '\\' COLLATE NOCASE AND books.has_cover = ? AND books.id IN (?, ?) AND EXISTS (SELECT 1 FROM books_ratings_link"));
    assert_eq!(texts(&q.params), vec!["t:%50\\%%", "i:1", "i:3", "i:9", "i:2", "i:8"]);
    let none = query_sql(&BookQuery::default().filter(BookFilter::Ids(Vec::new()))).unwrap();
    assert_eq!(none.condition, "0");
    let ident = query_sql(&BookQuery::default().filter(BookFilter::Identifier { kind: Some("isbn".into()), value: "1".into() })).unwrap();
    assert_eq!(ident.condition, "EXISTS (SELECT 1 FROM identifiers AS l WHERE l.book = books.id AND l.type = ? COLLATE NOCASE AND l.val = ?)");
    assert_eq!(texts(&ident.params), vec!["t:isbn", "t:1"]);
}

#[test]
fn ordering_has_a_stable_tie_break() {
    assert_eq!(order_clause(&Vec::new()), "books.id ASC");
    let order = vec![BookOrder::descending(BookSort::Author), BookOrder::ascending(BookSort::Timestamp)];
    assert_eq!(order_clause(&order), "books.author_sort COLLATE NOCASE DESC, books.timestamp ASC, books.id DESC");
}

#[test]
fn offsets_must_fit_sqlite() {
    let query = BookQuery::default().page(PageRequest { limit: 1, offset: u64::MAX });
    assert!(matches!(query_sql(&query), Err(Error::InvalidInput { .. })));
}
