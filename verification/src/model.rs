use crate::error::{invalid_input, Error};
use crate::ids::{AuthorId, BookId, FormatId};
use vstd::prelude::*;

verus! {

/// An author attached to a book.
#[derive(Clone, Debug, PartialEq, Eq)]
pub struct Author {
    /// Database ID.
    pub id: AuthorId,
    /// Display name.
    pub name: String,
    /// Calibre's stored sort value.
    pub sort: Option<String>,
    /// Optional link attached to the author.
    pub link: String,
}

/// A tag attached to a book.
#[derive(Clone, Debug, PartialEq, Eq)]
pub struct Tag {
    /// Database ID.
    pub id: i64,
    /// Tag name.
    pub name: String,
    /// Optional link.
    pub link: String,
}

/// A publisher attached to a book.
#[derive(Clone, Debug, PartialEq, Eq)]
pub struct Publisher {
    /// Database ID.
    pub id: i64,
    /// Publisher name.
    pub name: String,
    /// Stored sort value.
    pub sort: Option<String>,
    /// Optional link.
    pub link: String,
}

/// A language code attached to a book.
#[derive(Clone, Debug, PartialEq, Eq)]
pub struct Language {
    /// Database ID.
    pub id: i64,
    /// Calibre's stored ISO 639 code, normally three letters.
    pub code: String,
    /// Optional link.
    pub link: String,
}

/// A typed external identifier such as an ISBN.
#[derive(Clone, Debug, PartialEq, Eq)]
pub struct Identifier {
    /// Identifier kind.
    pub kind: String,
    /// Identifier value.
    pub value: String,
}

/// A Calibre rating on its stored zero-to-ten scale.
#[derive(Clone, Copy, Debug, PartialEq, Eq, Structural)]
pub struct Rating(u8);

impl View for Rating {
    type V = u8;

    closed spec fn view(&self) -> u8 {
        self.0
    }
}

impl Rating {
    /// Every rating holds a value from 1 through 10.
    #[verifier::type_invariant]
    spec fn wf(self) -> bool {
        1 <= self.0 <= 10
    }

    /// Creates a nonzero rating.
    ///
    /// Calibre stores ratings from 0 through 10, but treats zero as absent.
    /// Returns [`Error::InvalidInput`] for zero or a value above 10.
    pub fn new(value: u8) -> (r: Result<Self, Error>)
        ensures
            (1 <= value <= 10) <==> r is Ok,
            r matches Ok(rating) ==> rating@ == value,
            r matches Err(e) ==> e matches Error::InvalidInput { field, .. } && field == "rating",
    {
        if 1 <= value && value <= 10 {
            Ok(Rating(value))
        } else {
            Err(invalid_input("rating", "expected an integer from 1 through 10"))
        }
    }

    /// A rating is determined by its value, so `Rating::new(r.get())` gives
    /// back `r`: `new` gives a rating whose value is its argument, and `get`
    /// gives a value from 1 through 10.
    pub proof fn lemma_value_determines_rating(a: Rating, b: Rating)
        requires
            a@ == b@,
        ensures
            a == b,
    {
    }

    /// Returns the stored value.
    pub fn get(self) -> (value: u8)
        ensures
            value == self@,
            1 <= value <= 10,
    {
        proof {
            use_type_invariant(&self);
        }
        self.0
    }
}

/// One ebook format row and its resolved filesystem state.
#[derive(Clone, Debug, PartialEq, Eq)]
pub struct Format {
    /// Format row ID.
    pub id: FormatId,
    /// Uppercase logical format, such as `EPUB`.
    pub format: String,
    /// Size recorded in `metadata.db`.
    pub stored_size: u64,
    /// Size observed on disk, or `None` if the file is missing.
    pub file_size: Option<u64>,
    /// Checked absolute path within the library.
    pub path: String,
}

/// A stable sort key for book queries.
#[derive(Clone, Copy, Debug, PartialEq, Eq, Structural)]
pub enum BookSort {
    /// Sort by Calibre's stored title-sort value.
    Title,
    /// Sort by stored author sort.
    Author,
    /// Sort by import timestamp.
    Timestamp,
    /// Sort by last modification.
    LastModified,
    /// Sort by numeric ID.
    Id,
    /// Sort by publication date.
    PublicationDate,
    /// Sort by series name.
    Series,
    /// Sort by publisher name.
    Publisher,
    /// Sort by Calibre's stored rating.
    Rating,
}

impl Default for BookSort {
    fn default() -> (r: Self)
        ensures
            r == BookSort::Title,
    {
        BookSort::Title
    }
}

/// Sort direction.
#[derive(Clone, Copy, Debug, PartialEq, Eq, Structural)]
pub enum SortDirection {
    /// Ascending.
    Ascending,
    /// Descending.
    Descending,
}

impl Default for SortDirection {
    fn default() -> (r: Self)
        ensures
            r == SortDirection::Ascending,
    {
        SortDirection::Ascending
    }
}

/// Offset-based pagination.
#[derive(Clone, Copy, Debug, PartialEq, Eq, Structural)]
pub struct PageRequest {
    /// Maximum rows to return.
    pub limit: u32,
    /// Rows to skip.
    pub offset: u64,
}

impl Default for PageRequest {
    fn default() -> (r: Self)
        ensures
            r.limit == 100,
            r.offset == 0,
    {
        PageRequest { limit: 100, offset: 0 }
    }
}

/// One filter applied to a book query.
#[derive(Clone, Debug, PartialEq, Eq)]
pub enum BookFilter {
    /// Match a case-insensitive title fragment.
    TitleContains(String),
    /// Match a case-insensitive author-name fragment.
    AuthorContains(String),
    /// Match an exact tag name.
    Tag(String),
    /// Match an exact series name.
    Series(String),
    /// Match an exact publisher name.
    Publisher(String),
    /// Match an exact stored language code.
    Language(String),
    /// Match an exact identifier value and, when supplied, its kind.
    Identifier {
        /// Optional identifier kind such as `isbn`.
        kind: Option<String>,
        /// Identifier value.
        value: String,
    },
    /// Match an available logical format such as `EPUB`.
    Format(String),
    /// Match ratings within an inclusive range.
    RatingRange {
        /// Inclusive lower bound.
        minimum: Rating,
        /// Inclusive upper bound.
        maximum: Rating,
    },
    /// Match the stored cover-presence flag.
    HasCover(bool),
    /// Restrict results to these book IDs.
    Ids(Vec<BookId>),
}

/// One ordered sort term.
#[derive(Clone, Copy, Debug, PartialEq, Eq, Structural)]
pub struct BookOrder {
    /// Sort field.
    pub field: BookSort,
    /// Sort direction.
    pub direction: SortDirection,
}

impl BookOrder {
    /// Creates a sort term.
    pub fn new(field: BookSort, direction: SortDirection) -> (r: Self)
        ensures
            r.field == field,
            r.direction == direction,
    {
        BookOrder { field, direction }
    }

    /// Creates an ascending sort term.
    pub fn ascending(field: BookSort) -> (r: Self)
        ensures
            r.field == field,
            r.direction == SortDirection::Ascending,
    {
        Self::new(field, SortDirection::Ascending)
    }

    /// Creates a descending sort term.
    pub fn descending(field: BookSort) -> (r: Self)
        ensures
            r.field == field,
            r.direction == SortDirection::Descending,
    {
        Self::new(field, SortDirection::Descending)
    }
}

/// Filtering, multi-column sorting, and pagination for book listing.
#[derive(Clone, Debug, PartialEq, Eq)]
pub struct BookQuery {
    /// Filters combined with logical AND.
    pub filters: Vec<BookFilter>,
    /// Sort terms from most significant to least significant.
    pub order: Vec<BookOrder>,
    /// Page request.
    pub page: PageRequest,
}

impl BookQuery {
    /// Adds a filter after the existing ones.
    pub fn filter(self, filter: BookFilter) -> (r: Self)
        ensures
            r.filters@ == self.filters@.push(filter),
            r.order@ == self.order@,
            r.page == self.page,
    {
        let mut next = self;
        next.filters.push(filter);
        next
    }

    /// Replaces the sort terms.
    pub fn order_by(self, order: Vec<BookOrder>) -> (r: Self)
        ensures
            r.filters@ == self.filters@,
            r.order@ == order@,
            r.page == self.page,
    {
        let mut next = self;
        next.order = order;
        next
    }

    /// Replaces the page request.
    pub fn page(self, page: PageRequest) -> (r: Self)
        ensures
            r.filters@ == self.filters@,
            r.order@ == self.order@,
            r.page == page,
    {
        let mut next = self;
        next.page = page;
        next
    }
}

impl Default for BookQuery {
    /// No filters, ascending title order and the default page.
    fn default() -> (r: Self)
        ensures
            r.filters@.len() == 0,
            r.order@ == seq![BookOrder { field: BookSort::Title, direction: SortDirection::Ascending }],
            r.page.limit == 100,
            r.page.offset == 0,
    {
        let mut order = Vec::new();
        order.push(BookOrder::ascending(BookSort::Title));
        BookQuery { filters: Vec::new(), order, page: PageRequest::default() }
    }
}

/// A source file to add as a book format. Its extension names the format.
#[derive(Clone, Debug, PartialEq, Eq)]
pub struct FormatFile {
    path: String,
}

impl View for FormatFile {
    type V = Seq<char>;

    closed spec fn view(&self) -> Seq<char> {
        self.path@
    }
}

impl FormatFile {
    /// Creates a format source from a path. The extension is the format.
    pub fn new(path: &str) -> (r: Self)
        ensures
            r@ == path@,
    {
        FormatFile { path: path.to_owned() }
    }

    /// The source path.
    pub fn path(&self) -> (r: &str)
        ensures
            r@ == self@,
    {
        self.path.as_str()
    }
}

/// How a book should be removed.
#[derive(Clone, Copy, Debug, PartialEq, Eq, Structural)]
pub enum DeletionMode {
    /// Delete database state and files after compensating staging.
    Permanent,
    /// Use Calibre's per-library trash.
    Trash,
}

} // verus!
