use crate::books::{escape_like, like_escaped};
use crate::error::{invalid_input, Error};
use crate::ids::BookId;
use crate::model::{BookFilter, BookOrder, BookQuery, BookSort, SortDirection};
use crate::schema::required_tables;
use crate::text::{append_str, chars_of, string_of};
use vstd::prelude::*;

verus! {

/// A value bound to a `?` placeholder of a query.
#[derive(Clone, Debug)]
pub enum SqlParam {
    /// Text.
    Text(String),
    /// An integer.
    Integer(i64),
}

/// The parts of the `SQLite` query that lists a page of books: the `WHERE`
/// condition, the `ORDER BY` terms, the values of the condition's
/// placeholders in order, and the page bounds.
#[derive(Clone, Debug)]
pub struct QuerySql {
    /// Condition over the `books` table.
    pub condition: String,
    /// Ordering terms.
    pub order: String,
    /// Placeholder values of the condition, in order.
    pub params: Vec<SqlParam>,
    /// Page size.
    pub limit: i64,
    /// Rows skipped.
    pub offset: i64,
}

/// A placeholder value as plain data.
pub open spec fn param_view(p: SqlParam) -> (bool, Seq<char>, int) {
    match p {
        SqlParam::Text(s) => (true, s@, 0),
        SqlParam::Integer(i) => (false, Seq::empty(), i as int),
    }
}

/// The placeholder values as plain data.
pub open spec fn params_view(p: Seq<SqlParam>) -> Seq<(bool, Seq<char>, int)> {
    p.map_values(|x: SqlParam| param_view(x))
}

/// A text placeholder.
pub open spec fn text_param(s: Seq<char>) -> (bool, Seq<char>, int) {
    (true, s, 0)
}

/// An integer placeholder.
pub open spec fn int_param(i: int) -> (bool, Seq<char>, int) {
    (false, Seq::empty(), i)
}

/// The `LIKE` pattern matching text that contains `s`.
pub open spec fn contains_pattern(s: Seq<char>) -> Seq<char> {
    seq!['%'] + like_escaped(s) + seq!['%']
}

/// A condition that a related row of the book exists.
pub open spec fn related(join: Seq<char>, test: Seq<char>) -> Seq<char> {
    "EXISTS (SELECT 1 FROM "@ + join + " WHERE l.book = books.id AND "@ + test + seq![')']
}

/// The placeholders `?, ?, ...` for `n` values.
pub open spec fn placeholders(n: nat) -> Seq<char>
    decreases n,
{
    if n == 0 {
        Seq::empty()
    } else if n == 1 {
        seq!['?']
    } else {
        placeholders((n - 1) as nat) + seq![',', ' ', '?']
    }
}

/// The integer placeholders of a list of book IDs.
pub open spec fn id_params(ids: Seq<BookId>) -> Seq<(bool, Seq<char>, int)> {
    ids.map_values(|b: BookId| int_param(b@ as int))
}

/// The condition one filter adds and its placeholder values: text
/// containment matches without case through a `LIKE` pattern, names match
/// exactly without case, and an empty ID list matches nothing.
pub open spec fn filter_sql(f: BookFilter) -> (Seq<char>, Seq<(bool, Seq<char>, int)>) {
    match f {
        BookFilter::TitleContains(s) => (
            "books.title LIKE ? ESCAPE '\\' COLLATE NOCASE"@,
            seq![text_param(contains_pattern(s@))],
        ),
        BookFilter::AuthorContains(s) => (
            related(
                "books_authors_link AS l JOIN authors AS v ON v.id = l.author"@,
                "v.name LIKE ? ESCAPE '\\' COLLATE NOCASE"@,
            ),
            seq![text_param(contains_pattern(s@))],
        ),
        BookFilter::Tag(s) => (
            related(
                "books_tags_link AS l JOIN tags AS v ON v.id = l.tag"@,
                "v.name = ? COLLATE NOCASE"@,
            ),
            seq![text_param(s@)],
        ),
        BookFilter::Series(s) => (
            related(
                "books_series_link AS l JOIN series AS v ON v.id = l.series"@,
                "v.name = ? COLLATE NOCASE"@,
            ),
            seq![text_param(s@)],
        ),
        BookFilter::Publisher(s) => (
            related(
                "books_publishers_link AS l JOIN publishers AS v ON v.id = l.publisher"@,
                "v.name = ? COLLATE NOCASE"@,
            ),
            seq![text_param(s@)],
        ),
        BookFilter::Language(s) => (
            related(
                "books_languages_link AS l JOIN languages AS v ON v.id = l.lang_code"@,
                "v.lang_code = ? COLLATE NOCASE"@,
            ),
            seq![text_param(s@)],
        ),
        BookFilter::Identifier { kind, value } => match kind {
            Some(k) => (
                related("identifiers AS l"@, "l.type = ? COLLATE NOCASE AND l.val = ?"@),
                seq![text_param(k@), text_param(value@)],
            ),
            None => (related("identifiers AS l"@, "l.val = ?"@), seq![text_param(value@)]),
        },
        BookFilter::Format(s) => (
            related("data AS l"@, "l.format = ? COLLATE NOCASE"@),
            seq![text_param(s@)],
        ),
        BookFilter::RatingRange { minimum, maximum } => (
            related(
                "books_ratings_link AS l JOIN ratings AS v ON v.id = l.rating"@,
                "v.rating BETWEEN ? AND ?"@,
            ),
            seq![int_param(minimum@ as int), int_param(maximum@ as int)],
        ),
        BookFilter::HasCover(b) => ("books.has_cover = ?"@, seq![int_param(if b { 1 } else { 0 })]),
        BookFilter::Ids(ids) => if ids@.len() == 0 {
            ("0"@, Seq::empty())
        } else {
            ("books.id IN ("@ + placeholders(ids@.len()) + seq![')'], id_params(ids@))
        },
    }
}

/// The condition of all filters, joined with ` AND ` (`1` when there is
/// none), and their placeholder values in order.
pub open spec fn filters_sql(filters: Seq<BookFilter>) -> (Seq<char>, Seq<(bool, Seq<char>, int)>)
    decreases filters.len(),
{
    if filters.len() == 0 {
        ("1"@, Seq::empty())
    } else if filters.len() == 1 {
        filter_sql(filters[0])
    } else {
        let prev = filters_sql(filters.drop_last());
        let last = filter_sql(filters.last());
        (prev.0 + " AND "@ + last.0, prev.1 + last.1)
    }
}

/// The expression a sort key orders by.
pub open spec fn sort_expression(s: BookSort) -> Seq<char> {
    match s {
        BookSort::Title => "books.sort COLLATE NOCASE"@,
        BookSort::Author => "books.author_sort COLLATE NOCASE"@,
        BookSort::Timestamp => "books.timestamp"@,
        BookSort::LastModified => "books.last_modified"@,
        BookSort::Id => "books.id"@,
        BookSort::PublicationDate => "books.pubdate"@,
        BookSort::Series => "(SELECT v.name FROM books_series_link AS l JOIN series AS v ON v.id = l.series WHERE l.book = books.id) COLLATE NOCASE"@,
        BookSort::Publisher => "(SELECT v.name FROM books_publishers_link AS l JOIN publishers AS v ON v.id = l.publisher WHERE l.book = books.id) COLLATE NOCASE"@,
        BookSort::Rating => "(SELECT v.rating FROM books_ratings_link AS l JOIN ratings AS v ON v.id = l.rating WHERE l.book = books.id)"@,
    }
}

/// No two sort keys order by the same expression: each key sorts the books
/// by something of its own.
pub proof fn lemma_sort_keys_distinct(a: BookSort, b: BookSort)
    requires
        a != b,
    ensures
        sort_expression(a) != sort_expression(b),
{
    reveal_strlit("books.sort COLLATE NOCASE");
    reveal_strlit("books.author_sort COLLATE NOCASE");
    reveal_strlit("books.timestamp");
    reveal_strlit("books.last_modified");
    reveal_strlit("books.id");
    reveal_strlit("books.pubdate");
    reveal_strlit("(SELECT v.name FROM books_series_link AS l JOIN series AS v ON v.id = l.series WHERE l.book = books.id) COLLATE NOCASE");
    reveal_strlit("(SELECT v.name FROM books_publishers_link AS l JOIN publishers AS v ON v.id = l.publisher WHERE l.book = books.id) COLLATE NOCASE");
    reveal_strlit("(SELECT v.rating FROM books_ratings_link AS l JOIN ratings AS v ON v.id = l.rating WHERE l.book = books.id)");
    assert(sort_expression(a).len() != sort_expression(b).len());
}

/// The keys that order by a stored column of the `books` table name that
/// column of the schema: the ID by `id`, the import time by `timestamp`,
/// the publication date by `pubdate`, the last change by `last_modified`,
/// the title and author by their sort columns `sort` and `author_sort`
/// (compared without case).
pub proof fn lemma_sort_keys_name_books_columns()
    ensures
        sort_expression(BookSort::Id) == required_tables()[0].0 + "."@ + required_tables()[0].1[0],
        sort_expression(BookSort::Timestamp) == required_tables()[0].0 + "."@
            + required_tables()[0].1[3],
        sort_expression(BookSort::PublicationDate) == required_tables()[0].0 + "."@
            + required_tables()[0].1[4],
        sort_expression(BookSort::LastModified) == required_tables()[0].0 + "."@
            + required_tables()[0].1[10],
        sort_expression(BookSort::Title) == required_tables()[0].0 + "."@ + required_tables()[0].1[2]
            + " COLLATE NOCASE"@,
        sort_expression(BookSort::Author) == required_tables()[0].0 + "."@
            + required_tables()[0].1[6] + " COLLATE NOCASE"@,
        required_tables()[0].1[0] == "id"@,
        required_tables()[0].1[3] == "timestamp"@,
        required_tables()[0].1[4] == "pubdate"@,
        required_tables()[0].1[10] == "last_modified"@,
{
    reveal_strlit("books");
    reveal_strlit(".");
    reveal_strlit(" COLLATE NOCASE");
    reveal_strlit("id");
    reveal_strlit("sort");
    reveal_strlit("timestamp");
    reveal_strlit("pubdate");
    reveal_strlit("author_sort");
    reveal_strlit("last_modified");
    reveal_strlit("books.sort COLLATE NOCASE");
    reveal_strlit("books.author_sort COLLATE NOCASE");
    reveal_strlit("books.timestamp");
    reveal_strlit("books.last_modified");
    reveal_strlit("books.id");
    reveal_strlit("books.pubdate");
    assert(sort_expression(BookSort::Id) =~= required_tables()[0].0 + "."@ + required_tables()[0].1[0]);
    assert(sort_expression(BookSort::Timestamp) =~= required_tables()[0].0 + "."@
        + required_tables()[0].1[3]);
    assert(sort_expression(BookSort::PublicationDate) =~= required_tables()[0].0 + "."@
        + required_tables()[0].1[4]);
    assert(sort_expression(BookSort::LastModified) =~= required_tables()[0].0 + "."@
        + required_tables()[0].1[10]);
    assert(sort_expression(BookSort::Title) =~= required_tables()[0].0 + "."@
        + required_tables()[0].1[2] + " COLLATE NOCASE"@);
    assert(sort_expression(BookSort::Author) =~= required_tables()[0].0 + "."@
        + required_tables()[0].1[6] + " COLLATE NOCASE"@);
}

/// The keyword of a direction.
pub open spec fn direction_keyword(d: SortDirection) -> Seq<char> {
    match d {
        SortDirection::Ascending => "ASC"@,
        SortDirection::Descending => "DESC"@,
    }
}

/// The ordering terms of the requested keys, each followed by its
/// direction, joined with `, `.
pub open spec fn order_terms(order: Seq<BookOrder>) -> Seq<char>
    decreases order.len(),
{
    if order.len() == 0 {
        Seq::empty()
    } else {
        let term = sort_expression(order.last().field) + seq![' '] + direction_keyword(
            order.last().direction,
        );
        if order.len() == 1 {
            term
        } else {
            order_terms(order.drop_last()) + seq![',', ' '] + term
        }
    }
}

/// The ordering terms of two runs of keys one after the other are those of
/// the first run, `, `, and those of the second: every key is kept, in
/// order.
pub proof fn lemma_order_terms_append(a: Seq<BookOrder>, b: Seq<BookOrder>)
    requires
        a.len() > 0,
        b.len() > 0,
    ensures
        order_terms(a + b) == order_terms(a) + ", "@ + order_terms(b),
    decreases b.len(),
{
    reveal_strlit(", ");
    assert((a + b).drop_last() =~= a + b.drop_last());
    assert((a + b).last() == b.last());
    if b.len() == 1 {
        assert(a + b.drop_last() =~= a);
        assert(order_terms(a + b) =~= order_terms(a) + ", "@ + order_terms(b));
    } else {
        lemma_order_terms_append(a, b.drop_last());
        assert(order_terms(a + b) =~= order_terms(a) + ", "@ + order_terms(b));
    }
}

/// The conditions of two nonempty runs of filters one after the other are
/// those of the first run and those of the second joined with ` AND `, and
/// their values are those of the first run followed by those of the
/// second: every filter applies.
pub proof fn lemma_filters_sql_append(a: Seq<BookFilter>, b: Seq<BookFilter>)
    requires
        a.len() > 0,
        b.len() > 0,
    ensures
        filters_sql(a + b).0 == filters_sql(a).0 + " AND "@ + filters_sql(b).0,
        filters_sql(a + b).1 == filters_sql(a).1 + filters_sql(b).1,
    decreases b.len(),
{
    reveal_strlit(" AND ");
    assert((a + b).drop_last() =~= a + b.drop_last());
    assert((a + b).last() == b.last());
    if b.len() == 1 {
        assert(a + b.drop_last() =~= a);
        assert(b[0] == b.last());
        assert(filters_sql(a + b).0 =~= filters_sql(a).0 + " AND "@ + filters_sql(b).0);
        assert(filters_sql(a + b).1 =~= filters_sql(a).1 + filters_sql(b).1);
    } else {
        lemma_filters_sql_append(a, b.drop_last());
        assert(filters_sql(a + b).0 =~= filters_sql(a).0 + " AND "@ + filters_sql(b).0);
        assert(filters_sql(a + b).1 =~= filters_sql(a).1 + filters_sql(b).1);
    }
}

/// The full ordering: the requested keys, then the book ID as a stable tie
/// break in the direction of the first key (ascending when there is none).
pub open spec fn order_sql(order: Seq<BookOrder>) -> Seq<char> {
    if order.len() == 0 {
        "books.id ASC"@
    } else {
        order_terms(order) + ", books.id "@ + direction_keyword(order[0].direction)
    }
}

/// Ordering by one key sorts by that key's expression in the requested
/// direction, then by the book ID in the same direction: `ASC` when
/// ascending, `DESC` when descending.
pub proof fn lemma_single_key_order(o: BookOrder)
    ensures
        o.direction is Ascending ==> order_sql(seq![o]) == sort_expression(o.field)
            + " ASC, books.id ASC"@,
        o.direction is Descending ==> order_sql(seq![o]) == sort_expression(o.field)
            + " DESC, books.id DESC"@,
{
    reveal_strlit("ASC");
    reveal_strlit("DESC");
    reveal_strlit(", books.id ");
    reveal_strlit(" ASC, books.id ASC");
    reveal_strlit(" DESC, books.id DESC");
    let e = sort_expression(o.field);
    assert(seq![o].last() == o);
    assert(seq![o][0] == o);
    if o.direction is Ascending {
        assert(order_sql(seq![o]) =~= e + " ASC, books.id ASC"@);
    } else {
        assert(order_sql(seq![o]) =~= e + " DESC, books.id DESC"@);
    }
}

/// How many `?` placeholders a text holds.
pub open spec fn question_marks(s: Seq<char>) -> nat
    decreases s.len(),
{
    if s.len() == 0 {
        0
    } else {
        question_marks(s.drop_last()) + if s.last() == '?' {
            1nat
        } else {
            0nat
        }
    }
}

/// A text without a `?`.
pub open spec fn no_marks(s: Seq<char>) -> bool {
    forall|j: int| 0 <= j < s.len() ==> #[trigger] s[j] != '?'
}

proof fn lemma_marks_append(a: Seq<char>, b: Seq<char>)
    ensures
        question_marks(a + b) == question_marks(a) + question_marks(b),
    decreases b.len(),
{
    if b.len() == 0 {
        assert(a + b =~= a);
    } else {
        lemma_marks_append(a, b.drop_last());
        assert((a + b).drop_last() =~= a + b.drop_last());
        assert((a + b).last() == b.last());
    }
}

proof fn lemma_no_marks(s: Seq<char>)
    requires
        no_marks(s),
    ensures
        question_marks(s) == 0,
    decreases s.len(),
{
    if s.len() > 0 {
        assert(no_marks(s.drop_last()));
        lemma_no_marks(s.drop_last());
        assert(s.last() == s[s.len() - 1]);
    }
}

proof fn lemma_marks_one()
    ensures
        question_marks(seq!['?']) == 1,
{
    assert(seq!['?'].drop_last() =~= Seq::<char>::empty());
    assert(seq!['?'].last() == '?');
    assert(question_marks(Seq::<char>::empty()) == 0);
}

proof fn lemma_marks_placeholders(n: nat)
    ensures
        question_marks(placeholders(n)) == n,
    decreases n,
{
    if n == 1 {
        lemma_marks_one();
    } else if n > 1 {
        lemma_marks_placeholders((n - 1) as nat);
        lemma_marks_append(placeholders((n - 1) as nat), seq![',', ' ', '?']);
        assert(seq![',', ' ', '?'] =~= seq![',', ' '] + seq!['?']);
        assert(no_marks(seq![',', ' ']));
        lemma_no_marks(seq![',', ' ']);
        lemma_marks_one();
        lemma_marks_append(seq![',', ' '], seq!['?']);
    }
}

proof fn lemma_marks_related(join: Seq<char>, test: Seq<char>)
    requires
        no_marks(join),
    ensures
        question_marks(related(join, test)) == question_marks(test),
{
    let a = "EXISTS (SELECT 1 FROM "@;
    let b = " WHERE l.book = books.id AND "@;
    assert(no_marks(a)) by {
        reveal_strlit("EXISTS (SELECT 1 FROM ");
    }
    assert(no_marks(b)) by {
        reveal_strlit(" WHERE l.book = books.id AND ");
    }
    assert(no_marks(seq![')']));
    lemma_no_marks(a);
    lemma_no_marks(b);
    lemma_no_marks(join);
    lemma_no_marks(seq![')']);
    lemma_marks_append(a, join);
    lemma_marks_append(a + join, b);
    lemma_marks_append(a + join + b, test);
    lemma_marks_append(a + join + b + test, seq![')']);
}

proof fn lemma_marks_title_test()
    ensures
        question_marks("books.title LIKE ? ESCAPE '\\' COLLATE NOCASE"@) == 1,
{
    reveal_strlit(" ESCAPE '\\' COLLATE NOCASE");
    reveal_strlit("books.title LIKE ? ESCAPE '\\' COLLATE NOCASE");
    reveal_strlit("books.title LIKE ");
    assert("books.title LIKE ? ESCAPE '\\' COLLATE NOCASE"@ =~= "books.title LIKE "@ + seq!['?'] + " ESCAPE '\\' COLLATE NOCASE"@);
    lemma_no_marks("books.title LIKE "@);
    lemma_no_marks(" ESCAPE '\\' COLLATE NOCASE"@);
    lemma_marks_one();
    lemma_marks_append("books.title LIKE "@, seq!['?']);
    lemma_marks_append("books.title LIKE "@ + seq!['?'], " ESCAPE '\\' COLLATE NOCASE"@);
}

proof fn lemma_marks_like_test()
    ensures
        question_marks("v.name LIKE ? ESCAPE '\\' COLLATE NOCASE"@) == 1,
{
    reveal_strlit(" ESCAPE '\\' COLLATE NOCASE");
    reveal_strlit("v.name LIKE ");
    reveal_strlit("v.name LIKE ? ESCAPE '\\' COLLATE NOCASE");
    assert("v.name LIKE ? ESCAPE '\\' COLLATE NOCASE"@ =~= "v.name LIKE "@ + seq!['?'] + " ESCAPE '\\' COLLATE NOCASE"@);
    lemma_no_marks("v.name LIKE "@);
    lemma_no_marks(" ESCAPE '\\' COLLATE NOCASE"@);
    lemma_marks_one();
    lemma_marks_append("v.name LIKE "@, seq!['?']);
    lemma_marks_append("v.name LIKE "@ + seq!['?'], " ESCAPE '\\' COLLATE NOCASE"@);
}

proof fn lemma_marks_name_test()
    ensures
        question_marks("v.name = ? COLLATE NOCASE"@) == 1,
{
    reveal_strlit("v.name = ? COLLATE NOCASE");
    reveal_strlit(" COLLATE NOCASE");
    reveal_strlit("v.name = ");
    assert("v.name = ? COLLATE NOCASE"@ =~= "v.name = "@ + seq!['?'] + " COLLATE NOCASE"@);
    lemma_no_marks("v.name = "@);
    lemma_no_marks(" COLLATE NOCASE"@);
    lemma_marks_one();
    lemma_marks_append("v.name = "@, seq!['?']);
    lemma_marks_append("v.name = "@ + seq!['?'], " COLLATE NOCASE"@);
}

proof fn lemma_marks_language_test()
    ensures
        question_marks("v.lang_code = ? COLLATE NOCASE"@) == 1,
{
    reveal_strlit(" COLLATE NOCASE");
    reveal_strlit("v.lang_code = ");
    reveal_strlit("v.lang_code = ? COLLATE NOCASE");
    assert("v.lang_code = ? COLLATE NOCASE"@ =~= "v.lang_code = "@ + seq!['?'] + " COLLATE NOCASE"@);
    lemma_no_marks("v.lang_code = "@);
    lemma_no_marks(" COLLATE NOCASE"@);
    lemma_marks_one();
    lemma_marks_append("v.lang_code = "@, seq!['?']);
    lemma_marks_append("v.lang_code = "@ + seq!['?'], " COLLATE NOCASE"@);
}

proof fn lemma_marks_scheme_test()
    ensures
        question_marks("l.type = ? COLLATE NOCASE AND l.val = ?"@) == 2,
{
    reveal_strlit("l.type = ? COLLATE NOCASE AND l.val = ?");
    reveal_strlit(" COLLATE NOCASE AND l.val = ");
    reveal_strlit("l.type = ");
    assert("l.type = ? COLLATE NOCASE AND l.val = ?"@ =~= "l.type = "@ + seq!['?'] + " COLLATE NOCASE AND l.val = "@ + seq!['?']);
    lemma_no_marks("l.type = "@);
    lemma_no_marks(" COLLATE NOCASE AND l.val = "@);
    lemma_marks_one();
    lemma_marks_append("l.type = "@, seq!['?']);
    lemma_marks_append("l.type = "@ + seq!['?'], " COLLATE NOCASE AND l.val = "@);
    lemma_marks_append("l.type = "@ + seq!['?'] + " COLLATE NOCASE AND l.val = "@, seq!['?']);
}

proof fn lemma_marks_value_test()
    ensures
        question_marks("l.val = ?"@) == 1,
{
    reveal_strlit("l.val = ");
    reveal_strlit("l.val = ?");
    assert("l.val = ?"@ =~= "l.val = "@ + seq!['?']);
    lemma_no_marks("l.val = "@);
    lemma_marks_one();
    lemma_marks_append("l.val = "@, seq!['?']);
}

proof fn lemma_marks_format_test()
    ensures
        question_marks("l.format = ? COLLATE NOCASE"@) == 1,
{
    reveal_strlit(" COLLATE NOCASE");
    reveal_strlit("l.format = ? COLLATE NOCASE");
    reveal_strlit("l.format = ");
    assert("l.format = ? COLLATE NOCASE"@ =~= "l.format = "@ + seq!['?'] + " COLLATE NOCASE"@);
    lemma_no_marks("l.format = "@);
    lemma_no_marks(" COLLATE NOCASE"@);
    lemma_marks_one();
    lemma_marks_append("l.format = "@, seq!['?']);
    lemma_marks_append("l.format = "@ + seq!['?'], " COLLATE NOCASE"@);
}

proof fn lemma_marks_rating_test()
    ensures
        question_marks("v.rating BETWEEN ? AND ?"@) == 2,
{
    reveal_strlit("v.rating BETWEEN ? AND ?");
    reveal_strlit("v.rating BETWEEN ");
    reveal_strlit(" AND ");
    assert("v.rating BETWEEN ? AND ?"@ =~= "v.rating BETWEEN "@ + seq!['?'] + " AND "@ + seq!['?']);
    lemma_no_marks("v.rating BETWEEN "@);
    lemma_no_marks(" AND "@);
    lemma_marks_one();
    lemma_marks_append("v.rating BETWEEN "@, seq!['?']);
    lemma_marks_append("v.rating BETWEEN "@ + seq!['?'], " AND "@);
    lemma_marks_append("v.rating BETWEEN "@ + seq!['?'] + " AND "@, seq!['?']);
}

proof fn lemma_marks_cover_test()
    ensures
        question_marks("books.has_cover = ?"@) == 1,
{
    reveal_strlit("books.has_cover = ?");
    reveal_strlit("books.has_cover = ");
    assert("books.has_cover = ?"@ =~= "books.has_cover = "@ + seq!['?']);
    lemma_no_marks("books.has_cover = "@);
    lemma_marks_one();
    lemma_marks_append("books.has_cover = "@, seq!['?']);
}

proof fn lemma_joins_unmarked()
    ensures
        no_marks("books_authors_link AS l JOIN authors AS v ON v.id = l.author"@),
        no_marks("books_tags_link AS l JOIN tags AS v ON v.id = l.tag"@),
        no_marks("books_series_link AS l JOIN series AS v ON v.id = l.series"@),
        no_marks("books_publishers_link AS l JOIN publishers AS v ON v.id = l.publisher"@),
        no_marks("books_languages_link AS l JOIN languages AS v ON v.id = l.lang_code"@),
        no_marks("identifiers AS l"@),
        no_marks("data AS l"@),
        no_marks("books_ratings_link AS l JOIN ratings AS v ON v.id = l.rating"@),
{
    reveal_strlit("books_authors_link AS l JOIN authors AS v ON v.id = l.author");
    reveal_strlit("books_tags_link AS l JOIN tags AS v ON v.id = l.tag");
    reveal_strlit("books_series_link AS l JOIN series AS v ON v.id = l.series");
    reveal_strlit("books_publishers_link AS l JOIN publishers AS v ON v.id = l.publisher");
    reveal_strlit("books_languages_link AS l JOIN languages AS v ON v.id = l.lang_code");
    reveal_strlit("identifiers AS l");
    reveal_strlit("data AS l");
    reveal_strlit("books_ratings_link AS l JOIN ratings AS v ON v.id = l.rating");
}

/// The condition of a filter holds one `?` placeholder for each value it
/// binds: the values line up with the placeholders.
pub proof fn lemma_filter_placeholders_bound(f: BookFilter)
    ensures
        question_marks(filter_sql(f).0) == filter_sql(f).1.len(),
{
    lemma_joins_unmarked();
    match f {
        BookFilter::TitleContains(_) => lemma_marks_title_test(),
        BookFilter::AuthorContains(_) => {
            lemma_marks_like_test();
            lemma_marks_related("books_authors_link AS l JOIN authors AS v ON v.id = l.author"@, "v.name LIKE ? ESCAPE '\\' COLLATE NOCASE"@);
        },
        BookFilter::Tag(_) => {
            lemma_marks_name_test();
            lemma_marks_related("books_tags_link AS l JOIN tags AS v ON v.id = l.tag"@, "v.name = ? COLLATE NOCASE"@);
        },
        BookFilter::Series(_) => {
            lemma_marks_name_test();
            lemma_marks_related("books_series_link AS l JOIN series AS v ON v.id = l.series"@, "v.name = ? COLLATE NOCASE"@);
        },
        BookFilter::Publisher(_) => {
            lemma_marks_name_test();
            lemma_marks_related("books_publishers_link AS l JOIN publishers AS v ON v.id = l.publisher"@, "v.name = ? COLLATE NOCASE"@);
        },
        BookFilter::Language(_) => {
            lemma_marks_language_test();
            lemma_marks_related("books_languages_link AS l JOIN languages AS v ON v.id = l.lang_code"@, "v.lang_code = ? COLLATE NOCASE"@);
        },
        BookFilter::Identifier { kind, value } => match kind {
            Some(_) => {
                lemma_marks_scheme_test();
                lemma_marks_related("identifiers AS l"@, "l.type = ? COLLATE NOCASE AND l.val = ?"@);
            },
            None => {
                lemma_marks_value_test();
                lemma_marks_related("identifiers AS l"@, "l.val = ?"@);
            },
        },
        BookFilter::Format(_) => {
            lemma_marks_format_test();
            lemma_marks_related("data AS l"@, "l.format = ? COLLATE NOCASE"@);
        },
        BookFilter::RatingRange { .. } => {
            lemma_marks_rating_test();
            lemma_marks_related("books_ratings_link AS l JOIN ratings AS v ON v.id = l.rating"@, "v.rating BETWEEN ? AND ?"@);
        },
        BookFilter::HasCover(_) => lemma_marks_cover_test(),
        BookFilter::Ids(ids) => {
            if ids@.len() == 0 {
                assert(no_marks("0"@)) by {
                    reveal_strlit("0");
                }
                lemma_no_marks("0"@);
            } else {
                assert(no_marks("books.id IN ("@)) by {
                    reveal_strlit("books.id IN (");
                }
                lemma_no_marks("books.id IN ("@);
                lemma_no_marks(seq![')']);
                lemma_marks_placeholders(ids@.len());
                lemma_marks_append("books.id IN ("@, placeholders(ids@.len()));
                lemma_marks_append("books.id IN ("@ + placeholders(ids@.len()), seq![')']);
            }
        },
    }
}

/// The condition of any list of filters holds one `?` placeholder for each
/// value bound, in total.
pub proof fn lemma_filters_placeholders_bound(filters: Seq<BookFilter>)
    ensures
        question_marks(filters_sql(filters).0) == filters_sql(filters).1.len(),
    decreases filters.len(),
{
    if filters.len() == 0 {
        assert(no_marks("1"@)) by {
            reveal_strlit("1");
        }
        lemma_no_marks("1"@);
    } else if filters.len() == 1 {
        lemma_filter_placeholders_bound(filters[0]);
    } else {
        lemma_filters_placeholders_bound(filters.drop_last());
        lemma_filter_placeholders_bound(filters.last());
        let prev = filters_sql(filters.drop_last());
        let last = filter_sql(filters.last());
        assert(no_marks(" AND "@)) by {
            reveal_strlit(" AND ");
        }
        lemma_no_marks(" AND "@);
        lemma_marks_append(prev.0, " AND "@);
        lemma_marks_append(prev.0 + " AND "@, last.0);
    }
}

fn push_text(params: &mut Vec<SqlParam>, s: String)
    ensures
        params_view(final(params)@) == params_view(old(params)@).push(text_param(s@)),
{
    params.push(SqlParam::Text(s));
    assert(params_view(params@) =~= params_view(old(params)@).push(text_param(s@)));
}

fn push_int(params: &mut Vec<SqlParam>, i: i64)
    ensures
        params_view(final(params)@) == params_view(old(params)@).push(int_param(i as int)),
{
    params.push(SqlParam::Integer(i));
    assert(params_view(params@) =~= params_view(old(params)@).push(int_param(i as int)));
}

fn contains(s: &str) -> (r: String)
    ensures
        r@ == contains_pattern(s@),
{
    let mut out: Vec<char> = Vec::new();
    out.push('%');
    append_str(&mut out, escape_like(s).as_str());
    out.push('%');
    string_of(&out)
}

fn push_related(out: &mut Vec<char>, join: &str, test: &str)
    ensures
        final(out)@ == old(out)@ + related(join@, test@),
{
    proof {
        reveal_strlit("EXISTS (SELECT 1 FROM ");
        reveal_strlit(" WHERE l.book = books.id AND ");
    }
    append_str(out, "EXISTS (SELECT 1 FROM ");
    append_str(out, join);
    append_str(out, " WHERE l.book = books.id AND ");
    append_str(out, test);
    out.push(')');
    assert(out@ =~= old(out)@ + related(join@, test@));
}

fn push_filter(out: &mut Vec<char>, params: &mut Vec<SqlParam>, f: &BookFilter)
    ensures
        final(out)@ == old(out)@ + filter_sql(*f).0,
        params_view(final(params)@) == params_view(old(params)@) + filter_sql(*f).1,
{
    let ghost p0 = params_view(params@);
    match f {
        BookFilter::TitleContains(s) => {
            append_str(out, "books.title LIKE ? ESCAPE '\\' COLLATE NOCASE");
            push_text(params, contains(s.as_str()));
        },
        BookFilter::AuthorContains(s) => {
            push_related(
                out,
                "books_authors_link AS l JOIN authors AS v ON v.id = l.author",
                "v.name LIKE ? ESCAPE '\\' COLLATE NOCASE",
            );
            push_text(params, contains(s.as_str()));
        },
        BookFilter::Tag(s) => {
            push_related(
                out,
                "books_tags_link AS l JOIN tags AS v ON v.id = l.tag",
                "v.name = ? COLLATE NOCASE",
            );
            push_text(params, s.clone());
        },
        BookFilter::Series(s) => {
            push_related(
                out,
                "books_series_link AS l JOIN series AS v ON v.id = l.series",
                "v.name = ? COLLATE NOCASE",
            );
            push_text(params, s.clone());
        },
        BookFilter::Publisher(s) => {
            push_related(
                out,
                "books_publishers_link AS l JOIN publishers AS v ON v.id = l.publisher",
                "v.name = ? COLLATE NOCASE",
            );
            push_text(params, s.clone());
        },
        BookFilter::Language(s) => {
            push_related(
                out,
                "books_languages_link AS l JOIN languages AS v ON v.id = l.lang_code",
                "v.lang_code = ? COLLATE NOCASE",
            );
            push_text(params, s.clone());
        },
        BookFilter::Identifier { kind, value } => match kind {
            Some(k) => {
                push_related(out, "identifiers AS l", "l.type = ? COLLATE NOCASE AND l.val = ?");
                push_text(params, k.clone());
                push_text(params, value.clone());
            },
            None => {
                push_related(out, "identifiers AS l", "l.val = ?");
                push_text(params, value.clone());
            },
        },
        BookFilter::Format(s) => {
            push_related(out, "data AS l", "l.format = ? COLLATE NOCASE");
            push_text(params, s.clone());
        },
        BookFilter::RatingRange { minimum, maximum } => {
            push_related(
                out,
                "books_ratings_link AS l JOIN ratings AS v ON v.id = l.rating",
                "v.rating BETWEEN ? AND ?",
            );
            push_int(params, minimum.get() as i64);
            push_int(params, maximum.get() as i64);
        },
        BookFilter::HasCover(b) => {
            append_str(out, "books.has_cover = ?");
            push_int(
                params,
                if *b {
                    1
                } else {
                    0
                },
            );
        },
        BookFilter::Ids(ids) => {
            if ids.len() == 0 {
                append_str(out, "0");
            } else {
                append_str(out, "books.id IN (");
                let ghost o0 = out@;
                let ghost q0 = params_view(params@);
                let mut i: usize = 0;
                while i < ids.len()
                    invariant
                        i <= ids@.len(),
                        out@ == o0 + placeholders(i as nat),
                        params_view(params@) == q0 + id_params(ids@.take(i as int)),
                    decreases ids@.len() - i,
                {
                    if i > 0 {
                        out.push(',');
                        out.push(' ');
                    }
                    out.push('?');
                    push_int(params, ids[i].get());
                    i = i + 1;
                    assert(ids@.take(i as int) =~= ids@.take(i - 1).push(ids@[i - 1]));
                    assert(id_params(ids@.take(i as int)) =~= id_params(ids@.take(i - 1)).push(
                        int_param(ids@[i - 1]@ as int),
                    ));
                    assert(out@ =~= o0 + placeholders(i as nat));
                }
                assert(ids@.take(ids@.len() as int) =~= ids@);
                out.push(')');
            }
        },
    }
    proof {
        reveal_strlit("books.title LIKE ? ESCAPE '\\' COLLATE NOCASE");
        reveal_strlit("books_authors_link AS l JOIN authors AS v ON v.id = l.author");
        reveal_strlit("v.name LIKE ? ESCAPE '\\' COLLATE NOCASE");
        reveal_strlit("books.has_cover = ?");
        reveal_strlit("0");
        reveal_strlit("books.id IN (");
    }
    assert(out@ =~= old(out)@ + filter_sql(*f).0);
    assert(params_view(params@) =~= p0 + filter_sql(*f).1);
}

fn sort_text(s: BookSort) -> (r: &'static str)
    ensures
        r@ == sort_expression(s),
{
    match s {
        BookSort::Title => "books.sort COLLATE NOCASE",
        BookSort::Author => "books.author_sort COLLATE NOCASE",
        BookSort::Timestamp => "books.timestamp",
        BookSort::LastModified => "books.last_modified",
        BookSort::Id => "books.id",
        BookSort::PublicationDate => "books.pubdate",
        BookSort::Series => "(SELECT v.name FROM books_series_link AS l JOIN series AS v ON v.id = l.series WHERE l.book = books.id) COLLATE NOCASE",
        BookSort::Publisher => "(SELECT v.name FROM books_publishers_link AS l JOIN publishers AS v ON v.id = l.publisher WHERE l.book = books.id) COLLATE NOCASE",
        BookSort::Rating => "(SELECT v.rating FROM books_ratings_link AS l JOIN ratings AS v ON v.id = l.rating WHERE l.book = books.id)",
    }
}

fn direction_text(d: SortDirection) -> (r: &'static str)
    ensures
        r@ == direction_keyword(d),
{
    match d {
        SortDirection::Ascending => "ASC",
        SortDirection::Descending => "DESC",
    }
}

/// The ordering of a query (see [`order_sql`]).
pub fn order_clause(order: &Vec<BookOrder>) -> (r: String)
    ensures
        r@ == order_sql(order@),
{
    proof {
        reveal_strlit("books.id ASC");
        reveal_strlit(", books.id ");
    }
    if order.len() == 0 {
        return "books.id ASC".to_owned();
    }
    let mut out: Vec<char> = Vec::new();
    let mut i: usize = 0;
    while i < order.len()
        invariant
            i <= order@.len(),
            out@ == order_terms(order@.take(i as int)),
        decreases order@.len() - i,
    {
        if i > 0 {
            out.push(',');
            out.push(' ');
        }
        append_str(&mut out, sort_text(order[i].field));
        out.push(' ');
        append_str(&mut out, direction_text(order[i].direction));
        i = i + 1;
        assert(order@.take(i as int).drop_last() =~= order@.take(i - 1));
        assert(order@.take(i as int).last() == order@[i - 1]);
        assert(out@ =~= order_terms(order@.take(i as int)));
    }
    assert(order@.take(order@.len() as int) =~= order@);
    append_str(&mut out, ", books.id ");
    append_str(&mut out, direction_text(order[0].direction));
    string_of(&out)
}

/// The condition and placeholder values of a query's filters (see
/// [`filters_sql`]).
pub fn condition(filters: &Vec<BookFilter>) -> (r: (String, Vec<SqlParam>))
    ensures
        r.0@ == filters_sql(filters@).0,
        params_view(r.1@) == filters_sql(filters@).1,
{
    proof {
        reveal_strlit("1");
        reveal_strlit(" AND ");
    }
    let mut params: Vec<SqlParam> = Vec::new();
    if filters.len() == 0 {
        assert(params_view(params@) =~= Seq::<(bool, Seq<char>, int)>::empty());
        return ("1".to_owned(), params);
    }
    let mut out: Vec<char> = Vec::new();
    let mut i: usize = 0;
    assert(params_view(params@) =~= Seq::<(bool, Seq<char>, int)>::empty());
    while i < filters.len()
        invariant
            i <= filters@.len(),
            i > 0 ==> out@ == filters_sql(filters@.take(i as int)).0,
            i > 0 ==> params_view(params@) == filters_sql(filters@.take(i as int)).1,
            i == 0 ==> out@.len() == 0 && params_view(params@).len() == 0,
        decreases filters@.len() - i,
    {
        let ghost o0 = out@;
        let ghost p0 = params_view(params@);
        if i > 0 {
            append_str(&mut out, " AND ");
        }
        push_filter(&mut out, &mut params, &filters[i]);
        i = i + 1;
        let ghost t = filters@.take(i as int);
        assert(t.drop_last() =~= filters@.take(i - 1));
        assert(t.last() == filters@[i - 1]);
        if i == 1 {
            assert(t[0] == filters@[0]);
            assert(out@ =~= filters_sql(t).0);
            assert(params_view(params@) =~= filters_sql(t).1);
        } else {
            assert(out@ =~= filters_sql(t).0);
            assert(params_view(params@) =~= filters_sql(t).1);
        }
    }
    assert(filters@.take(filters@.len() as int) =~= filters@);
    (string_of(&out), params)
}

/// Plans the query that lists a page of books: all filters must hold, the
/// books come in the requested order with the ID as tie break, and the page
/// bounds are `SQLite` integers.
///
/// Returns [`Error::InvalidInput`] for an offset beyond `i64`.
pub fn query_sql(query: &BookQuery) -> (r: Result<QuerySql, Error>)
    ensures
        r is Ok <==> query.page.offset <= i64::MAX,
        r matches Ok(q) ==> {
            &&& q.condition@ == filters_sql(query.filters@).0
            &&& params_view(q.params@) == filters_sql(query.filters@).1
            &&& q.order@ == order_sql(query.order@)
            &&& q.limit == query.page.limit as i64
            &&& q.offset == query.page.offset as i64
        },
        r matches Err(e) ==> e is InvalidInput,
{
    if query.page.offset > i64::MAX as u64 {
        return Err(invalid_input("page offset", "offset exceeds SQLite's signed integer range"));
    }
    let (condition, params) = condition(&query.filters);
    let order = order_clause(&query.order);
    Ok(
        QuerySql {
            condition,
            order,
            params,
            limit: query.page.limit as i64,
            offset: query.page.offset as i64,
        },
    )
}

} // verus!
