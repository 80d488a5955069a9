use crate::error::{error_text, Error};
use crate::ids::BookId;
use crate::library::Library;
use crate::paths::{
    ascii_upper, format_file_name, format_file_name_spec, format_name, join, join_spec,
    valid_format, valid_relative, validate_relative,
};
use crate::text::chars_eq;
use vstd::prelude::*;

verus! {

/// The kind of inconsistency found during a read-only library audit.
#[derive(Clone, Copy, Debug, PartialEq, Eq, Structural)]
pub enum AuditIssueKind {
    /// `SQLite`'s quick integrity check reported a problem.
    DatabaseIntegrity,
    /// A stored book path was unsafe.
    UnsafeBookPath,
    /// A stored format path was unsafe.
    UnsafeFormatPath,
    /// A stored cover path was unsafe.
    UnsafeCoverPath,
    /// A book directory was missing.
    MissingBookDirectory,
    /// A format row used an invalid logical format.
    MalformedFormat,
    /// A format row had no corresponding file.
    MissingFormat,
    /// The stored and observed format sizes differed.
    FormatSizeMismatch,
    /// `has_cover` was set but `cover.jpg` was missing.
    MissingCover,
    /// `cover.jpg` existed while `has_cover` was clear.
    UntrackedCover,
}

/// One audit finding.
#[derive(Clone, Debug)]
pub struct AuditIssue {
    /// Finding category.
    pub kind: AuditIssueKind,
    /// Related book when known.
    pub book_id: Option<BookId>,
    /// Related path when known.
    pub path: Option<String>,
    /// Diagnostic detail.
    pub detail: String,
}

/// Results of a non-mutating library audit.
#[derive(Clone, Debug)]
pub struct AuditReport {
    /// Books inspected.
    pub books_checked: u64,
    /// Format rows inspected.
    pub formats_checked: u64,
    /// Findings in deterministic book and format order.
    pub issues: Vec<AuditIssue>,
}

impl AuditReport {
    /// Returns true when no issue was found.
    pub fn is_clean(&self) -> (r: bool)
        ensures
            r == (self.issues@.len() == 0),
    {
        self.issues.len() == 0
    }
}

/// The findings of `SQLite`'s quick check: one per message other than
/// `ok`, in order.
pub open spec fn integrity_findings(messages: Seq<String>) -> Seq<Seq<char>>
    decreases messages.len(),
{
    if messages.len() == 0 {
        Seq::empty()
    } else if messages.last()@ == "ok"@ {
        integrity_findings(messages.drop_last())
    } else {
        integrity_findings(messages.drop_last()).push(messages.last()@)
    }
}

/// Turns the messages of `SQLite`'s quick check into findings about the
/// database: one per message other than `ok`, in order.
pub fn integrity_issues(messages: &Vec<String>, database: &str) -> (r: Vec<AuditIssue>)
    ensures
        r@.map_values(|i: AuditIssue| i.detail@) == integrity_findings(messages@),
        forall|i: int|
            0 <= i < r@.len() ==> (#[trigger] r@[i]).kind == AuditIssueKind::DatabaseIntegrity
                && r@[i].book_id is None && (r@[i].path matches Some(p) && p@ == database@),
{
    let ok = crate::text::chars_of("ok");
    proof {
        reveal_strlit("ok");
    }
    let mut out: Vec<AuditIssue> = Vec::new();
    let mut i: usize = 0;
    while i < messages.len()
        invariant
            ok@ == "ok"@,
            i <= messages@.len(),
            out@.map_values(|i: AuditIssue| i.detail@) == integrity_findings(
                messages@.take(i as int),
            ),
            forall|j: int|
                0 <= j < out@.len() ==> (#[trigger] out@[j]).kind
                    == AuditIssueKind::DatabaseIntegrity && out@[j].book_id is None
                    && (out@[j].path matches Some(p) && p@ == database@),
        decreases messages@.len() - i,
    {
        assert(messages@.take(i + 1).drop_last() =~= messages@.take(i as int));
        assert(messages@.take(i + 1).last() == messages@[i as int]);
        if !chars_eq(&crate::text::chars_of(messages[i].as_str()), &ok) {
            let ghost before = out@.map_values(|i: AuditIssue| i.detail@);
            out.push(
                AuditIssue {
                    kind: AuditIssueKind::DatabaseIntegrity,
                    book_id: None,
                    path: Some(database.to_owned()),
                    detail: messages[i].clone(),
                },
            );
            assert(out@.map_values(|i: AuditIssue| i.detail@) =~= before.push(messages@[i as int]@));
        }
        i = i + 1;
    }
    assert(messages@.take(messages@.len() as int) =~= messages@);
    out
}

/// A finding about a book whose stored path is not a safe relative path;
/// `None` when it is one.
pub fn book_path_issue(book: BookId, stored_path: &str) -> (r: Option<AuditIssue>)
    ensures
        r is None <==> valid_relative(stored_path@),
        r matches Some(i) ==> i.kind == AuditIssueKind::UnsafeBookPath && i.book_id == Some(book)
            && (i.path matches Some(p) && p@ == stored_path@),
{
    match validate_relative(stored_path) {
        Ok(()) => None,
        Err(e) => Some(
            AuditIssue {
                kind: AuditIssueKind::UnsafeBookPath,
                book_id: Some(book),
                path: Some(stored_path.to_owned()),
                detail: e.message(),
            },
        ),
    }
}

/// A finding about a book's cover flag against its `cover.jpg`: a flag
/// without a file, or a file without the flag; `None` when they agree.
pub fn cover_issue(book: BookId, cover_path: &str, has_cover: bool, cover_is_file: bool) -> (r:
    Option<AuditIssue>)
    ensures
        r is None <==> has_cover == cover_is_file,
        r matches Some(i) ==> i.book_id == Some(book) && (i.path matches Some(p) && p@
            == cover_path@) && i.kind == (if has_cover {
            AuditIssueKind::MissingCover
        } else {
            AuditIssueKind::UntrackedCover
        }),
{
    if has_cover && !cover_is_file {
        Some(
            AuditIssue {
                kind: AuditIssueKind::MissingCover,
                book_id: Some(book),
                path: Some(cover_path.to_owned()),
                detail: "database records a cover but cover.jpg is missing".to_owned(),
            },
        )
    } else if !has_cover && cover_is_file {
        Some(
            AuditIssue {
                kind: AuditIssueKind::UntrackedCover,
                book_id: Some(book),
                path: Some(cover_path.to_owned()),
                detail: "cover.jpg exists but has_cover is clear".to_owned(),
            },
        )
    } else {
        None
    }
}

/// The file a format row names in its book directory, or the finding about
/// a row whose format is malformed.
pub fn format_file(book: BookId, format: &str, stem: &str) -> (r: Result<String, AuditIssue>)
    ensures
        r is Ok <==> valid_format(format@),
        r matches Ok(name) ==> name@ == format_file_name_spec(
            stem@,
            format@.map_values(|c: char| ascii_upper(c)),
        ),
        r matches Err(i) ==> i.kind == AuditIssueKind::MalformedFormat && i.book_id == Some(book)
            && i.path is None,
{
    match format_name(format) {
        Ok(normalized) => Ok(format_file_name(stem, normalized.as_str())),
        Err(e) => Err(
            AuditIssue {
                kind: AuditIssueKind::MalformedFormat,
                book_id: Some(book),
                path: None,
                detail: e.message(),
            },
        ),
    }
}

/// Whether a stored size matches the size on disk: a negative stored size
/// never does.
pub open spec fn sizes_agree(stored_size: i64, file_size: u64) -> bool {
    stored_size >= 0 && stored_size as int == file_size as int
}

/// A finding about a format file whose size differs from the stored size;
/// `None` when they agree.
pub fn format_size_issue(book: BookId, path: &str, stored_size: i64, file_size: u64) -> (r:
    Option<AuditIssue>)
    ensures
        r is None <==> sizes_agree(stored_size, file_size),
        r matches Some(i) ==> i.kind == AuditIssueKind::FormatSizeMismatch && i.book_id == Some(
            book,
        ) && (i.path matches Some(p) && p@ == path@),
{
    if stored_size >= 0 && stored_size as u64 == file_size {
        None
    } else {
        Some(
            AuditIssue {
                kind: AuditIssueKind::FormatSizeMismatch,
                book_id: Some(book),
                path: Some(path.to_owned()),
                detail: "stored size differs from filesystem size".to_owned(),
            },
        )
    }
}

/// A finding about a format row whose file is missing or not a regular
/// file.
pub fn missing_format_issue(book: BookId, path: &str, exists: bool) -> (r: AuditIssue)
    ensures
        r.kind == AuditIssueKind::MissingFormat && r.book_id == Some(book) && (r.path matches Some(
            p,
        ) && p@ == path@),
{
    AuditIssue {
        kind: AuditIssueKind::MissingFormat,
        book_id: Some(book),
        path: Some(path.to_owned()),
        detail: if exists {
            "format path is not a regular file".to_owned()
        } else {
            "format file does not exist".to_owned()
        },
    }
}

/// A finding about a book whose directory does not exist.
pub fn missing_directory_issue(book: BookId, directory: &str) -> (r: AuditIssue)
    ensures
        r.kind == AuditIssueKind::MissingBookDirectory && r.book_id == Some(book) && (
        r.path matches Some(p) && p@ == directory@),
{
    AuditIssue {
        kind: AuditIssueKind::MissingBookDirectory,
        book_id: Some(book),
        path: Some(directory.to_owned()),
        detail: "book directory does not exist".to_owned(),
    }
}

/// What was seen at the path of a format file.
#[derive(Clone, Debug)]
pub enum FileObservation {
    /// Nothing exists there.
    Missing,
    /// Something other than a regular file exists there.
    NotFile,
    /// A regular file of this size in bytes.
    File(u64),
    /// The path resolves outside the library root, for this reason.
    Escapes(String),
}

/// A format row of a book and what was seen at the path of its file
/// (the book directory joined with the name [`format_file`] gives).
#[derive(Clone, Debug)]
pub struct FormatObservation {
    /// Logical format as stored.
    pub format: String,
    /// Stored uncompressed size.
    pub stored_size: i64,
    /// File-name stem.
    pub stem: String,
    /// What was seen at the file's path.
    pub file: FileObservation,
}

/// What an audit observed of one book. Observations after the first that
/// ends the book's audit are not read.
#[derive(Clone, Debug)]
pub struct BookObservation {
    /// Book ID.
    pub id: BookId,
    /// Stored relative directory.
    pub stored_path: String,
    /// Why the directory resolves outside the library root, when it does.
    pub directory_escape: Option<String>,
    /// The book directory under the library root.
    pub directory: String,
    /// The directory exists and is a directory.
    pub is_dir: bool,
    /// The database records a cover.
    pub has_cover: bool,
    /// Why `cover.jpg` resolves outside the library root, when it does.
    pub cover_escape: Option<String>,
    /// `cover.jpg` is a regular file.
    pub cover_is_file: bool,
    /// The book's format rows in order, with their files.
    pub formats: Vec<FormatObservation>,
}

/// A finding as plain values: its kind and path.
pub open spec fn finding_view(i: AuditIssue) -> (AuditIssueKind, Option<Seq<char>>) {
    (
        i.kind,
        match i.path {
            Some(p) => Some(p@),
            None => None,
        },
    )
}

/// The finding about one format row, if any: a malformed format; else a
/// file outside the library, missing, not a file, or of another size than
/// stored.
pub open spec fn format_finding(directory: Seq<char>, stored_path: Seq<char>, f: FormatObservation) -> Option<
    (AuditIssueKind, Option<Seq<char>>),
> {
    if !valid_format(f.format@) {
        Some((AuditIssueKind::MalformedFormat, None))
    } else {
        let name = format_file_name_spec(f.stem@, f.format@.map_values(|c: char| ascii_upper(c)));
        match f.file {
            FileObservation::File(size) => if sizes_agree(f.stored_size, size) {
                None
            } else {
                Some((AuditIssueKind::FormatSizeMismatch, Some(join_spec(directory, name))))
            },
            FileObservation::Escapes(_) => Some(
                (AuditIssueKind::UnsafeFormatPath, Some(join_spec(stored_path, name))),
            ),
            _ => Some((AuditIssueKind::MissingFormat, Some(join_spec(directory, name)))),
        }
    }
}

/// The findings about a list of format rows, in order.
pub open spec fn format_findings(directory: Seq<char>, stored_path: Seq<char>, formats: Seq<FormatObservation>) -> Seq<
    (AuditIssueKind, Option<Seq<char>>),
>
    decreases formats.len(),
{
    if formats.len() == 0 {
        Seq::empty()
    } else {
        let before = format_findings(directory, stored_path, formats.drop_last());
        match format_finding(directory, stored_path, formats.last()) {
            Some(f) => before.push(f),
            None => before,
        }
    }
}

/// Whether a book's audit reaches its cover and formats: its stored path is
/// safe and its directory exists inside the library.
pub open spec fn book_reachable(o: BookObservation) -> bool {
    valid_relative(o.stored_path@) && o.directory_escape is None && o.is_dir
}

/// The findings about one book, in order: an unsafe stored path or a
/// directory outside the library ends the book's audit with that finding,
/// as does a missing directory; otherwise a cover finding (an unsafe cover
/// path, or a cover flag that disagrees with `cover.jpg`) is followed by
/// the findings about its formats.
pub open spec fn book_findings(o: BookObservation) -> Seq<(AuditIssueKind, Option<Seq<char>>)> {
    if !valid_relative(o.stored_path@) || o.directory_escape is Some {
        seq![(AuditIssueKind::UnsafeBookPath, Some(o.stored_path@))]
    } else if !o.is_dir {
        seq![(AuditIssueKind::MissingBookDirectory, Some(o.directory@))]
    } else {
        let cover: Seq<(AuditIssueKind, Option<Seq<char>>)> = if o.cover_escape is Some {
            seq![(AuditIssueKind::UnsafeCoverPath, Some(join_spec(o.stored_path@, "cover.jpg"@)))]
        } else if o.has_cover != o.cover_is_file {
            seq![
                (
                    if o.has_cover {
                        AuditIssueKind::MissingCover
                    } else {
                        AuditIssueKind::UntrackedCover
                    },
                    Some(join_spec(o.directory@, "cover.jpg"@)),
                ),
            ]
        } else {
            Seq::empty()
        };
        cover + format_findings(o.directory@, o.stored_path@, o.formats@)
    }
}

fn unsafe_issue(kind: AuditIssueKind, book: BookId, path: &str, detail: &str) -> (r: AuditIssue)
    ensures
        r.kind == kind && r.book_id == Some(book) && (r.path matches Some(p) && p@ == path@),
{
    AuditIssue { kind, book_id: Some(book), path: Some(path.to_owned()), detail: detail.to_owned() }
}

/// Audits one book from what was observed of it: the findings of
/// [`book_findings`], each naming the book, and the number of format rows
/// checked (all of them when the audit reaches the formats, else none).
pub fn audit_book(o: &BookObservation) -> (r: (Vec<AuditIssue>, u64))
    ensures
        r.0@.map_values(|i: AuditIssue| finding_view(i)) == book_findings(*o),
        forall|i: int| 0 <= i < r.0@.len() ==> (#[trigger] r.0@[i]).book_id == Some(o.id),
        r.1 == if book_reachable(*o) {
            o.formats@.len()
        } else {
            0
        },
{
    let mut out: Vec<AuditIssue> = Vec::new();
    if let Some(issue) = book_path_issue(o.id, o.stored_path.as_str()) {
        out.push(issue);
        assert(out@.map_values(|i: AuditIssue| finding_view(i)) =~= book_findings(*o));
        return (out, 0);
    }
    match &o.directory_escape {
        Some(reason) => {
            out.push(unsafe_issue(AuditIssueKind::UnsafeBookPath, o.id, o.stored_path.as_str(), reason.as_str()));
            assert(out@.map_values(|i: AuditIssue| finding_view(i)) =~= book_findings(*o));
            return (out, 0);
        },
        None => {},
    }
    if !o.is_dir {
        out.push(missing_directory_issue(o.id, o.directory.as_str()));
        assert(out@.map_values(|i: AuditIssue| finding_view(i)) =~= book_findings(*o));
        return (out, 0);
    }
    proof {
        reveal_strlit("cover.jpg");
    }
    match &o.cover_escape {
        Some(reason) => {
            let cover = join(o.stored_path.as_str(), "cover.jpg");
            out.push(unsafe_issue(AuditIssueKind::UnsafeCoverPath, o.id, cover.as_str(), reason.as_str()));
        },
        None => {
            let cover = join(o.directory.as_str(), "cover.jpg");
            match cover_issue(o.id, cover.as_str(), o.has_cover, o.cover_is_file) {
                Some(issue) => out.push(issue),
                None => {},
            }
        },
    }
    let ghost cover_part = out@.map_values(|i: AuditIssue| finding_view(i));
    let mut k: usize = 0;
    while k < o.formats.len()
        invariant
            k <= o.formats@.len(),
            book_reachable(*o),
            out@.map_values(|i: AuditIssue| finding_view(i)) == cover_part + format_findings(
                o.directory@,
                o.stored_path@,
                o.formats@.take(k as int),
            ),
            forall|i: int| 0 <= i < out@.len() ==> (#[trigger] out@[i]).book_id == Some(o.id),
        decreases o.formats@.len() - k,
    {
        let f = &o.formats[k];
        let ghost before = out@.map_values(|i: AuditIssue| finding_view(i));
        let ghost fk = format_finding(o.directory@, o.stored_path@, o.formats@[k as int]);
        assert(o.formats@.take(k + 1).drop_last() =~= o.formats@.take(k as int));
        assert(o.formats@.take(k + 1).last() == o.formats@[k as int]);
        assert(*f == o.formats@[k as int]);
        let ghost len_before = out@.len();
        match format_file(o.id, f.format.as_str(), f.stem.as_str()) {
            Err(issue) => {
                out.push(issue);
            },
            Ok(name) => {
                match &f.file {
                    FileObservation::File(size) => {
                        let path = join(o.directory.as_str(), name.as_str());
                        match format_size_issue(o.id, path.as_str(), f.stored_size, *size) {
                            Some(issue) => out.push(issue),
                            None => {},
                        }
                    },
                    FileObservation::Escapes(reason) => {
                        let path = join(o.stored_path.as_str(), name.as_str());
                        out.push(unsafe_issue(AuditIssueKind::UnsafeFormatPath, o.id, path.as_str(), reason.as_str()));
                    },
                    FileObservation::Missing => {
                        let path = join(o.directory.as_str(), name.as_str());
                        out.push(missing_format_issue(o.id, path.as_str(), false));
                    },
                    FileObservation::NotFile => {
                        let path = join(o.directory.as_str(), name.as_str());
                        out.push(missing_format_issue(o.id, path.as_str(), true));
                    },
                }
            },
        }
        proof {
            match fk {
                Some(x) => {
                    assert(out@.len() == len_before + 1);
                    assert(finding_view(out@.last()) == x);
                    assert(out@.map_values(|i: AuditIssue| finding_view(i)) =~= before.push(x));
                },
                None => {
                    assert(out@.len() == len_before);
                    assert(out@.map_values(|i: AuditIssue| finding_view(i)) =~= before);
                },
            }
        }
        assert(out@.map_values(|i: AuditIssue| finding_view(i)) =~= cover_part + format_findings(
            o.directory@,
            o.stored_path@,
            o.formats@.take(k + 1),
        ));
        k = k + 1;
    }
    assert(o.formats@.take(o.formats@.len() as int) =~= o.formats@);
    assert(out@.map_values(|i: AuditIssue| finding_view(i)) =~= book_findings(*o));
    (out, o.formats.len() as u64)
}

/// The findings about a list of books, in order.
pub open spec fn books_findings(books: Seq<BookObservation>) -> Seq<(AuditIssueKind, Option<Seq<char>>)>
    decreases books.len(),
{
    if books.len() == 0 {
        Seq::empty()
    } else {
        books_findings(books.drop_last()) + book_findings(books.last())
    }
}

/// The format rows an audit checks: those of every book it reaches.
pub open spec fn checked_formats(books: Seq<BookObservation>) -> int
    decreases books.len(),
{
    if books.len() == 0 {
        0
    } else {
        checked_formats(books.drop_last()) + if book_reachable(books.last()) {
            books.last().formats@.len() as int
        } else {
            0
        }
    }
}

/// The format rows of a list of books.
pub open spec fn all_formats(books: Seq<BookObservation>) -> int
    decreases books.len(),
{
    if books.len() == 0 {
        0
    } else {
        all_formats(books.drop_last()) + books.last().formats@.len()
    }
}

proof fn lemma_checked_at_most_all(books: Seq<BookObservation>)
    ensures
        0 <= checked_formats(books) <= all_formats(books),
    decreases books.len(),
{
    if books.len() > 0 {
        lemma_checked_at_most_all(books.drop_last());
    }
}

/// A count as a `u64` holds it, saturating at its largest value.
pub open spec fn saturated(n: int) -> u64 {
    if n > u64::MAX {
        u64::MAX
    } else {
        n as u64
    }
}

/// The audit report of a library: the database findings, then each book's
/// findings in order; every book is counted, and the format rows of the
/// books the audit reaches (never more than the library's rows).
pub fn audit_report(integrity: Vec<AuditIssue>, books: &Vec<BookObservation>) -> (r: AuditReport)
    ensures
        r.books_checked == books@.len(),
        r.formats_checked == saturated(checked_formats(books@)),
        r.formats_checked <= saturated(all_formats(books@)),
        r.issues@.map_values(|i: AuditIssue| finding_view(i)) == integrity@.map_values(
            |i: AuditIssue| finding_view(i),
        ) + books_findings(books@),
{
    let ghost start = integrity@.map_values(|i: AuditIssue| finding_view(i));
    let mut issues = integrity;
    let mut formats_checked: u64 = 0;
    let mut i: usize = 0;
    while i < books.len()
        invariant
            i <= books@.len(),
            formats_checked == saturated(checked_formats(books@.take(i as int))),
            issues@.map_values(|x: AuditIssue| finding_view(x)) == start + books_findings(
                books@.take(i as int),
            ),
        decreases books@.len() - i,
    {
        let (mut found, checked) = audit_book(&books[i]);
        assert(books@.take(i + 1).drop_last() =~= books@.take(i as int));
        assert(books@.take(i + 1).last() == books@[i as int]);
        proof {
            lemma_checked_at_most_all(books@.take(i as int));
        }
        let ghost before = issues@;
        let ghost added = found@;
        issues.append(&mut found);
        assert(issues@ == before + added);
        assert(issues@.map_values(|x: AuditIssue| finding_view(x)) =~= before.map_values(
            |x: AuditIssue| finding_view(x),
        ) + added.map_values(|x: AuditIssue| finding_view(x)));
        formats_checked = formats_checked.saturating_add(checked);
        assert(issues@.map_values(|x: AuditIssue| finding_view(x)) =~= start + books_findings(
            books@.take(i + 1),
        ));
        i = i + 1;
    }
    assert(books@.take(books@.len() as int) =~= books@);
    proof {
        lemma_checked_at_most_all(books@);
    }
    AuditReport { books_checked: books.len() as u64, formats_checked, issues }
}

/// Read-only consistency checks for one library.
#[derive(Debug)]
pub struct Auditor {
    library: Library,
}

impl Clone for Auditor {
    fn clone(&self) -> (r: Self)
        ensures
            r.library_spec() == self.library_spec(),
    {
        Auditor { library: self.library.clone() }
    }
}

impl Auditor {
    /// The library these operations act on.
    pub closed spec fn library_spec(&self) -> Library {
        self.library
    }

    pub(crate) fn new(library: Library) -> (r: Self)
        ensures
            r.library_spec() == library,
    {
        Auditor { library }
    }

    /// The library these operations act on.
    pub fn library(&self) -> (r: &Library)
        ensures
            *r == self.library_spec(),
    {
        &self.library
    }
}

} // verus!
