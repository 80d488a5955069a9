use crate::books::{unknown, views};
use crate::error::{invalid_input, invalid_library, unsupported, Error};
use crate::opf::TrashBookMetadata;
use crate::paths::{
    join, join_spec, path_components, same_path,
    ascii_upper, book_relative_path, book_relative_path_spec, dot_end, extension, extension_spec,
    file_name, file_name_spec, format_name, new_uuid, uuid_text, valid_format,
};
use crate::sorting::{book_author_sort, conservative_title_sort, joined_author_sort, title_sort_spec};
use crate::ids::BookId;
use crate::library::Library;
use crate::paths::{ascii_lower, to_ascii_lower};
use crate::text::{append_chars, append_str, chars_of, decimal, decimal_chars, parse_i64, parse_int, string_of};
use vstd::prelude::*;

verus! {

/// Calibre's default age for automatic trash expiry, in seconds (fourteen
/// days).
pub const DEFAULT_TRASH_EXPIRY: u64 = 14 * 24 * 60 * 60;

/// The largest format-trash listing (`metadata.json`) read, in bytes; a
/// larger one is ignored.
pub const MAX_LISTING_BYTES: u64 = 1024 * 1024;

/// A category in Calibre's per-library trash.
#[derive(Clone, Copy, Debug, PartialEq, Eq, Structural)]
pub enum TrashEntryKind {
    /// A complete deleted book directory.
    Book,
    /// One or more deleted formats for a live book.
    Formats,
}

/// A visible entry in Calibre's per-library trash.
#[derive(Clone, Debug)]
pub struct TrashEntry {
    /// Original book ID.
    pub book_id: BookId,
    /// Trash category.
    pub kind: TrashEntryKind,
    /// Display title captured when the entry was removed.
    pub title: String,
    /// Ordered display authors captured when the entry was removed.
    pub authors: Vec<String>,
    /// Modification time of the entry directory, in nanoseconds since the
    /// Unix epoch, used for expiry.
    pub modified: u128,
    /// Available logical formats for a format-trash entry.
    pub formats: Vec<String>,
    /// Cover path for a trashed book or its still-live format owner.
    pub cover_path: Option<String>,
}

/// Current contents of both Calibre trash categories.
#[derive(Clone, Debug)]
pub struct TrashContents {
    /// Whole-book entries.
    pub books: Vec<TrashEntry>,
    /// Per-book format entries.
    pub formats: Vec<TrashEntry>,
}

impl Default for TrashContents {
    fn default() -> (r: Self)
        ensures
            r.books@.len() == 0 && r.formats@.len() == 0,
    {
        TrashContents { books: Vec::new(), formats: Vec::new() }
    }
}

/// The directory of Calibre's trash, relative to the library root.
pub open spec fn trash_directory() -> Seq<char> {
    ".caltrash"@
}

/// The directory of one trash category, relative to the library root.
pub open spec fn category_spec(kind: TrashEntryKind) -> Seq<char> {
    trash_directory() + seq!['/'] + if kind == TrashEntryKind::Book {
        seq!['b']
    } else {
        seq!['f']
    }
}

/// The relative directory of a trash entry: `.caltrash/<b or f>/<id>`.
pub open spec fn trash_entry_spec(kind: TrashEntryKind, book: int) -> Seq<char> {
    category_spec(kind) + seq!['/'] + decimal(book)
}

/// The relative directory of one category of Calibre's trash.
pub fn category_relative(kind: TrashEntryKind) -> (r: String)
    ensures
        r@ == category_spec(kind),
{
    let mut out = chars_of(".caltrash/");
    match kind {
        TrashEntryKind::Book => out.push('b'),
        TrashEntryKind::Formats => out.push('f'),
    }
    proof {
        reveal_strlit(".caltrash/");
        reveal_strlit(".caltrash");
    }
    assert(out@ =~= category_spec(kind));
    string_of(&out)
}

/// The relative directory of a trash entry, `.caltrash/<b or f>/<id>`.
///
/// Returns [`Error::InvalidInput`] for a book ID that is not positive.
pub fn trash_entry_relative(kind: TrashEntryKind, book: BookId) -> (r: Result<String, Error>)
    ensures
        r is Ok <==> book@ > 0,
        r matches Ok(path) ==> path@ == trash_entry_spec(kind, book@ as int),
        r matches Err(e) ==> e matches Error::InvalidInput { field, .. } && field == "book ID",
{
    if book.get() <= 0 {
        return Err(invalid_input("book ID", "trash book IDs must be positive"));
    }
    let mut out = chars_of(category_relative(kind).as_str());
    out.push('/');
    let digits = decimal_chars(book.get());
    append_chars(&mut out, &digits);
    assert(out@ =~= trash_entry_spec(kind, book@ as int));
    Ok(string_of(&out))
}

/// The relative path of a trashed format: its entry directory and the
/// format in lower case.
pub open spec fn format_trash_spec(book: int, format: Seq<char>) -> Seq<char> {
    trash_entry_spec(TrashEntryKind::Formats, book) + seq!['/'] + format.map_values(
        |c: char| ascii_lower(c),
    )
}

/// The relative path of a trashed format, `.caltrash/f/<id>/<format>`.
///
/// Returns [`Error::InvalidInput`] for a book ID that is not positive.
pub fn format_trash_relative(book: BookId, format: &str) -> (r: Result<String, Error>)
    ensures
        r is Ok <==> book@ > 0,
        r matches Ok(path) ==> path@ == format_trash_spec(book@ as int, format@),
        r matches Err(e) ==> e is InvalidInput,
{
    let entry = trash_entry_relative(TrashEntryKind::Formats, book)?;
    let mut out = chars_of(entry.as_str());
    out.push('/');
    let lower = to_ascii_lower(&chars_of(format));
    append_chars(&mut out, &lower);
    assert(out@ =~= format_trash_spec(book@ as int, format@));
    Ok(string_of(&out))
}

/// The book a trash entry name denotes: a positive decimal `i64`.
pub open spec fn entry_id_spec(name: Seq<char>) -> Option<int> {
    match parse_int(name) {
        Some(v) => if v > 0 {
            Some(v)
        } else {
            None
        },
        None => None,
    }
}

/// The book a trash entry directory name denotes; `None` for a name that
/// is not a positive decimal `i64` (such entries are skipped).
pub fn trash_entry_id(name: &str) -> (r: Option<BookId>)
    ensures
        r matches Some(id) ==> entry_id_spec(name@) == Some(id@ as int),
        r is None ==> entry_id_spec(name@) is None,
{
    match parse_i64(name) {
        Some(v) => if v > 0 {
            Some(BookId::new(v))
        } else {
            None
        },
        None => None,
    }
}

/// The age of an entry: the time since it was modified, zero for a
/// modification time in the future.
pub open spec fn entry_age(now: u128, modified: u128) -> int {
    if now >= modified {
        now - modified
    } else {
        0
    }
}

/// Whether an entry modified at `modified` has expired at `now` for an
/// expiry age of `age` (all in nanoseconds); an age of zero expires every
/// entry.
pub fn is_expired(now: u128, modified: u128, age: u128) -> (r: bool)
    ensures
        r == (entry_age(now, modified) >= age),
{
    let elapsed: u128 = if now >= modified {
        now - modified
    } else {
        0
    };
    elapsed >= age
}

/// The nanoseconds in a second.
pub const NANOS_PER_SECOND: u128 = 1_000_000_000;

/// How a trash write is refused: in read-only mode and for pending recovery
/// with [`Error::UnsupportedOperation`], for another schema version with
/// [`Error::UnsupportedSchema`].
pub open spec fn write_refusal(library: Library, pending: bool, e: Error) -> bool {
    if library.mode_spec() != crate::library::OpenMode::ReadWrite {
        e is UnsupportedOperation
    } else if library.compatibility_spec().schema_version != crate::library::SUPPORTED_SCHEMA_VERSION {
        e is UnsupportedSchema
    } else {
        pending && e is UnsupportedOperation
    }
}

/// Trash can be written: read-write mode, the supported schema, no pending
/// recovery.
pub open spec fn trash_writable(library: Library, pending: bool) -> bool {
    library.mode_spec() == crate::library::OpenMode::ReadWrite
        && library.compatibility_spec().schema_version == crate::library::SUPPORTED_SCHEMA_VERSION
        && !pending
}

/// The file-name prefix of the private sibling that holds a replaced trash
/// entry while a move runs.
pub open spec fn prior_prefix() -> Seq<char> {
    ".calibre-rs-prior-"@
}

/// Operations on Calibre's per-library trash.
#[derive(Debug)]
pub struct Trash {
    library: Library,
}

impl Clone for Trash {
    fn clone(&self) -> (r: Self)
        ensures
            r.library_spec() == self.library_spec(),
    {
        Trash { library: self.library.clone() }
    }
}

impl Trash {
    /// The library these operations act on.
    pub closed spec fn library_spec(&self) -> Library {
        self.library
    }

    pub(crate) fn new(library: Library) -> (r: Self)
        ensures
            r.library_spec() == library,
    {
        Trash { library }
    }

    /// The library these operations act on.
    pub fn library(&self) -> (r: &Library)
        ensures
            *r == self.library_spec(),
    {
        &self.library
    }
}

impl Trash {
    /// Checks that Calibre-compatible trash writes are available.
    ///
    /// Returns [`Error::UnsupportedOperation`] naming `operation` when the
    /// library is read-only, has pending recovery, or has active custom
    /// columns or full-text-search state.
    pub fn check_write(&self, operation: &'static str) -> (r: Result<(), Error>)
        ensures
            r is Ok <==> self.library_spec().capabilities_spec().calibre_trash,
            r matches Err(e) ==> e is UnsupportedOperation,
    {
        if !self.library.capabilities().calibre_trash {
            return Err(
                unsupported(
                    operation,
                    "read-write mode without custom columns or full-text-search state is required",
                ),
            );
        }
        Ok(())
    }
}

/// The values a restored book is stored with that its OPF may lack.
#[derive(Clone, Debug)]
pub struct RestoredBookValues {
    /// The book directory relative to the library root.
    pub relative_path: String,
    /// The author sort: the recorded one, else computed from the authors.
    pub author_sort: String,
    /// The title sort: the recorded one, else computed from the title.
    pub sort: String,
    /// The UUID: the recorded one, else a fresh one.
    pub uuid: String,
}

/// The first author a restored book's directory is named after.
pub open spec fn first_author_of(authors: Seq<Seq<char>>) -> Seq<char> {
    if authors.len() > 0 {
        authors[0]
    } else {
        unknown()
    }
}

/// Computes the values a restored book is stored with: its directory from
/// its title, first author and ID, and recorded sorts and UUID, falling
/// back to computed sorts and a fresh UUID.
pub fn restored_values(metadata: &TrashBookMetadata) -> (r: RestoredBookValues)
    ensures
        r.relative_path@ == book_relative_path_spec(
            metadata.title@,
            first_author_of(views(metadata.authors@)),
            metadata.id@ as int,
        ),
        r.author_sort@ == match metadata.author_sort {
            Some(a) => a@,
            None => joined_author_sort(views(metadata.authors@)),
        },
        r.sort@ == match metadata.sort {
            Some(s) => s@,
            None => title_sort_spec(metadata.title@),
        },
        match metadata.uuid {
            Some(u) => r.uuid@ == u@,
            None => uuid_text(r.uuid@),
        },
{
    proof {
        reveal_strlit("Unknown");
    }
    let first: &str = if metadata.authors.len() > 0 {
        metadata.authors[0].as_str()
    } else {
        "Unknown"
    };
    let relative_path = book_relative_path(metadata.title.as_str(), first, metadata.id.get());
    let author_sort = match &metadata.author_sort {
        Some(a) => a.clone(),
        None => {
            let s = book_author_sort(&metadata.authors);
            assert(metadata.authors@.map_values(|a: String| a@) == views(metadata.authors@));
            s
        },
    };
    let sort = match &metadata.sort {
        Some(s) => s.clone(),
        None => conservative_title_sort(metadata.title.as_str()),
    };
    let uuid = match &metadata.uuid {
        Some(u) => u.clone(),
        None => new_uuid(),
    };
    RestoredBookValues { relative_path, author_sort, sort, uuid }
}

/// The stem of a file name (`Path::file_stem`): the name before its last
/// `.`, unless that `.` starts the name.
pub open spec fn file_stem_spec(name: Seq<char>) -> Seq<char> {
    if dot_end(name) <= 1 {
        name
    } else {
        name.take(dot_end(name) - 1)
    }
}

/// A format found in a trashed book directory.
#[derive(Clone, Debug)]
pub struct RestoredFormat {
    /// Normalized format.
    pub format: String,
    /// File-name stem.
    pub stem: String,
}

/// What a file of a trashed book directory restores as: nothing for the
/// OPF, the cover and files without an extension; else its format and
/// stem.
pub open spec fn restored_entry_spec(name: Seq<char>) -> Option<(Seq<char>, Seq<char>)> {
    if name == "metadata.opf"@ || name == "cover.jpg"@ {
        None
    } else {
        match extension_spec(name) {
            None => None,
            Some(e) => Some(
                (
                    e.map_values(|c: char| ascii_upper(c)),
                    file_stem_spec(file_name_spec(name).unwrap()),
                ),
            ),
        }
    }
}

/// Classifies a regular file of a trashed book directory: `None` for the
/// OPF, the cover, or a file without an extension; else its format and
/// stem.
///
/// Returns [`Error::InvalidInput`] for an extension that is not a format,
/// and [`Error::InvalidLibrary`] for a format already found (`seen`).
pub fn restored_format_entry(name: &str, seen: &Vec<String>, directory: &str) -> (r: Result<
    Option<RestoredFormat>,
    Error,
>)
    ensures
        r is Ok <==> (restored_entry_spec(name@) matches Some(p) ==> (valid_format(
            extension_spec(name@).unwrap(),
        ) && !views(seen@).contains(p.0))),
        r matches Ok(None) ==> restored_entry_spec(name@) is None,
        r matches Ok(Some(f)) ==> restored_entry_spec(name@) == Some((f.format@, f.stem@)),
        r matches Err(e) ==> if valid_format(extension_spec(name@).unwrap()) {
            e matches Error::InvalidLibrary { path, .. } && path@ == directory@
        } else {
            e matches Error::InvalidInput { field, .. } && field == "format"
        },
{
    proof {
        reveal_strlit("metadata.opf");
        reveal_strlit("cover.jpg");
    }
    let n = chars_of(name);
    if crate::text::chars_eq(&n, &chars_of("metadata.opf")) || crate::text::chars_eq(
        &n,
        &chars_of("cover.jpg"),
    ) {
        return Ok(None);
    }
    let e = match extension(name) {
        Some(e) => e,
        None => return Ok(None),
    };
    let format = format_name(string_of(&e).as_str())?;
    assert(restored_entry_spec(name@) matches Some(p) && p.0 == format@);
    let mut j: usize = 0;
    while j < seen.len()
        invariant
            restored_entry_spec(name@) matches Some(p) && p.0 == format@,
            valid_format(extension_spec(name@).unwrap()),
            j <= seen@.len(),
            forall|k: int| 0 <= k < j ==> (#[trigger] seen@[k])@ != format@,
        decreases seen@.len() - j,
    {
        if seen[j] == format {
            assert(views(seen@)[j as int] == format@);
            assert(views(seen@).contains(format@));
            return Err(invalid_library(directory, "trashed book contains duplicate formats"));
        }
        j = j + 1;
    }
    assert(!views(seen@).contains(format@)) by {
        if views(seen@).contains(format@) {
            let k = choose|k: int| 0 <= k < views(seen@).len() && views(seen@)[k] == format@;
            assert(seen@[k]@ == format@);
        }
    }
    let full = match file_name(name) {
        Some(f) => f,
        None => return Ok(None),
    };
    let d = find_last_dot(&full);
    let stem = if d <= 1 {
        string_of(&full)
    } else {
        string_of(&crate::text::take(&full, d - 1))
    };
    Ok(Some(RestoredFormat { format, stem }))
}

fn find_last_dot(s: &Vec<char>) -> (j: usize)
    ensures
        j == dot_end(s@),
        j <= s.len(),
{
    let mut j: usize = s.len();
    assert(s@.take(j as int) =~= s@);
    while j > 0 && s[j - 1] != '.'
        invariant
            j <= s.len(),
            dot_end(s@) == dot_end(s@.take(j as int)),
        decreases j,
    {
        assert(s@.take(j as int).drop_last() =~= s@.take(j - 1));
        j = j - 1;
    }
    if j > 0 {
        assert(s@.take(j as int).last() == '.');
    }
    j
}

/// The listing of a format-trash entry without readable metadata.
pub fn unknown_listing() -> (r: (String, Vec<String>))
    ensures
        r.0@ == unknown(),
        views(r.1@) == seq![unknown()],
{
    proof {
        reveal_strlit("Unknown");
    }
    let mut authors: Vec<String> = Vec::new();
    authors.push("Unknown".to_owned());
    assert(views(authors@) =~= seq![unknown()]);
    ("Unknown".to_owned(), authors)
}

/// Whether a file of a format-trash entry is a format (not its listing
/// metadata).
pub fn is_format_entry_name(name: &str) -> (r: bool)
    ensures
        r == (name@ != "metadata.json"@),
{
    proof {
        reveal_strlit("metadata.json");
    }
    !crate::text::chars_eq(&chars_of(name), &chars_of("metadata.json"))
}

/// The tables of per-book state that a trashed book's `metadata.opf` cannot
/// carry.
pub open spec fn deferred_state_tables_spec() -> Seq<Seq<char>> {
    seq!["annotations"@, "books_plugin_data"@, "conversion_options"@, "last_read_positions"@]
}

/// The tables of per-book state that block moving a book to the trash (see
/// [`deferred_state_tables_spec`]).
pub fn deferred_state_tables() -> (r: Vec<String>)
    ensures
        views(r@) == deferred_state_tables_spec(),
{
    proof {
        reveal_strlit("annotations");
        reveal_strlit("books_plugin_data");
        reveal_strlit("conversion_options");
        reveal_strlit("last_read_positions");
    }
    let mut r: Vec<String> = Vec::new();
    r.push("annotations".to_owned());
    r.push("books_plugin_data".to_owned());
    r.push("conversion_options".to_owned());
    r.push("last_read_positions".to_owned());
    assert(views(r@) =~= deferred_state_tables_spec());
    r
}

/// Decides whether a book's per-book state in a table blocks moving it to
/// the trash: any row in an existing table does.
///
/// Returns [`Error::UnsupportedOperation`] when it does.
pub fn check_deferred_state(table_exists: bool, rows: i64) -> (r: Result<(), Error>)
    ensures
        r is Ok <==> !table_exists || rows == 0,
        r matches Err(e) ==> e is UnsupportedOperation,
{
    if table_exists && rows != 0 {
        return Err(
            unsupported(
                "move book to Calibre trash",
                "the book has state that core OPF restoration cannot preserve",
            ),
        );
    }
    Ok(())
}

impl Trash {
    /// The path of a whole-book trash entry: `.caltrash/b/<id>` under the
    /// library root.
    ///
    /// Returns [`Error::InvalidInput`] for a book ID that is not positive.
    pub fn book_path(&self, book: BookId) -> (r: Result<String, Error>)
        ensures
            r is Ok <==> book@ > 0,
            r matches Ok(p) ==> p@ == join_spec(
                self.library_spec().root_spec(),
                trash_entry_spec(TrashEntryKind::Book, book@ as int),
            ),
            r matches Err(e) ==> e is InvalidInput,
    {
        let relative = trash_entry_relative(TrashEntryKind::Book, book)?;
        Ok(join(self.library.root(), relative.as_str()))
    }

    fn check_trash_write(&self, pending: bool, operation: &'static str) -> (r: Result<(), Error>)
        ensures
            r is Ok <==> trash_writable(self.library_spec(), pending),
            r matches Err(e) ==> write_refusal(self.library_spec(), pending, e),
    {
        self.library.ensure_writable(operation)?;
        crate::library::ensure_clear(pending, operation)
    }

    /// Decides which entries expire: with the library writable and no
    /// recovery pending, each entry whose age at `now` is at least `age`
    /// (an age of zero empties the trash). Times are in nanoseconds.
    ///
    /// `modified` holds the entries' modification times. Returns
    /// [`Error::UnsupportedOperation`] for a read-only library or pending
    /// recovery and [`Error::UnsupportedSchema`] for another schema.
    pub fn expire_older_than(&self, pending: bool, now: u128, age: u128, modified: &Vec<u128>) -> (r:
        Result<Vec<bool>, Error>)
        ensures
            r is Ok <==> trash_writable(self.library_spec(), pending),
            r matches Ok(v) ==> v@.len() == modified@.len() && forall|i: int|
                0 <= i < modified@.len() ==> (#[trigger] v@[i]) == (entry_age(
                    now,
                    modified@[i],
                ) >= age),
            r matches Err(e) ==> write_refusal(self.library_spec(), pending, e),
    {
        self.check_trash_write(pending, "expire trash")?;
        let mut out: Vec<bool> = Vec::new();
        let mut i: usize = 0;
        while i < modified.len()
            invariant
                i <= modified@.len(),
                out@.len() == i,
                forall|j: int|
                    0 <= j < i ==> (#[trigger] out@[j]) == (entry_age(now, modified@[j]) >= age),
            decreases modified@.len() - i,
        {
            out.push(is_expired(now, modified[i], age));
            i = i + 1;
        }
        Ok(out)
    }

    /// Decides which entries expire at Calibre's default fourteen-day age.
    pub fn expire_default(&self, pending: bool, now: u128, modified: &Vec<u128>) -> (r: Result<
        Vec<bool>,
        Error,
    >)
        ensures
            r is Ok <==> trash_writable(self.library_spec(), pending),
            r matches Ok(v) ==> v@.len() == modified@.len() && forall|i: int|
                0 <= i < modified@.len() ==> (#[trigger] v@[i]) == (entry_age(
                    now,
                    modified@[i],
                ) >= DEFAULT_TRASH_EXPIRY * NANOS_PER_SECOND),
            r matches Err(e) ==> write_refusal(self.library_spec(), pending, e),
    {
        let age: u128 = DEFAULT_TRASH_EXPIRY as u128 * NANOS_PER_SECOND;
        self.expire_older_than(pending, now, age, modified)
    }

    /// Decides that every entry goes: expiry with an age of zero.
    pub fn clear(&self, pending: bool, now: u128, modified: &Vec<u128>) -> (r: Result<
        Vec<bool>,
        Error,
    >)
        ensures
            r is Ok <==> trash_writable(self.library_spec(), pending),
            r matches Ok(v) ==> v@.len() == modified@.len() && forall|i: int|
                0 <= i < modified@.len() ==> #[trigger] v@[i],
            r matches Err(e) ==> write_refusal(self.library_spec(), pending, e),
    {
        self.expire_older_than(pending, now, 0, modified)
    }

    /// The entry a deletion removes, once trash can be written: nothing when
    /// the category directory does not exist, else the entry directory of
    /// `book` in `kind`'s category, relative to the root.
    ///
    /// Returns [`Error::UnsupportedOperation`] for a read-only library or
    /// pending recovery, [`Error::UnsupportedSchema`] for another schema, and
    /// [`Error::InvalidInput`] (field `book ID`) for a book ID that is not
    /// positive when the category exists.
    pub fn delete_entry(&self, pending: bool, book: BookId, kind: TrashEntryKind, category_exists: bool) -> (r: Result<
        Option<String>,
        Error,
    >)
        ensures
            r is Ok <==> trash_writable(self.library_spec(), pending) && (!category_exists || book@ > 0),
            r matches Ok(None) ==> !category_exists,
            r matches Ok(Some(p)) ==> category_exists && p@ == trash_entry_spec(kind, book@ as int),
            r matches Err(e) ==> if trash_writable(self.library_spec(), pending) {
                e matches Error::InvalidInput { field, .. } && field == "book ID"
            } else {
                write_refusal(self.library_spec(), pending, e)
            },
    {
        self.check_trash_write(pending, "delete trash entry")?;
        if !category_exists {
            return Ok(None);
        }
        Ok(Some(trash_entry_relative(kind, book)?))
    }

    /// Checks a destination for copying a trashed book: it must not lie
    /// inside the trashed book, whose path this returns.
    ///
    /// Returns [`Error::InvalidInput`] for a destination inside the entry or
    /// a book ID that is not positive.
    pub fn copy_book_to(&self, book: BookId, destination: &str) -> (r: Result<String, Error>)
        ensures
            r is Ok <==> book@ > 0 && !path_components(
                join_spec(
                    self.library_spec().root_spec(),
                    trash_entry_spec(TrashEntryKind::Book, book@ as int),
                ),
            ).is_prefix_of(path_components(destination@)),
            r matches Ok(p) ==> p@ == join_spec(
                self.library_spec().root_spec(),
                trash_entry_spec(TrashEntryKind::Book, book@ as int),
            ),
            r matches Err(e) ==> e is InvalidInput,
    {
        let source = self.book_path(book)?;
        if starts_with_path(destination, source.as_str()) {
            return Err(
                invalid_input(
                    "trash copy destination",
                    "destination cannot be inside the trashed book",
                ),
            );
        }
        Ok(source)
    }
}

/// Whether `path` starts with the components of `base` (`Path::starts_with`).
pub fn starts_with_path(path: &str, base: &str) -> (r: bool)
    ensures
        r == path_components(base@).is_prefix_of(path_components(path@)),
{
    let p = crate::paths::components(path);
    let b = crate::paths::components(base);
    if b.len() > p.len() {
        assert(crate::paths::component_views(b@).len() > crate::paths::component_views(p@).len());
        return false;
    }
    let mut i: usize = 0;
    while i < b.len()
        invariant
            crate::paths::component_views(p@) == path_components(path@),
            crate::paths::component_views(b@) == path_components(base@),
            b.len() <= p.len(),
            i <= b.len(),
            forall|j: int| 0 <= j < i ==> p@[j]@ == b@[j]@,
        decreases b.len() - i,
    {
        if !crate::text::chars_eq(&p[i], &b[i]) {
            assert(crate::paths::component_views(p@)[i as int] != crate::paths::component_views(b@)[i as int]);
            assert(crate::paths::component_views(p@).subrange(0, b@.len() as int)[i as int] != crate::paths::component_views(b@)[i as int]);
            return false;
        }
        i = i + 1;
    }
    assert(crate::paths::component_views(b@) =~= crate::paths::component_views(p@).subrange(0, b@.len() as int));
    true
}

} // verus!
