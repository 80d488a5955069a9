use crate::books::unknown;
use crate::error::{invalid_input, unsupported, Error};
use crate::journal::FormatRecoveryState;
use crate::library::Library;
use crate::ids::FormatId;
use crate::model::Format;
use crate::paths::{extension_spec, format_from_path, join, join_spec, valid_relative, validate_relative};
use crate::paths::{format_file_name, format_file_name_spec, format_name, format_stem, format_stem_spec, valid_format, ascii_upper};
use crate::sorting::{eq_ignore_ascii_case, equal_ignore_ascii_case};
use vstd::prelude::*;

verus! {

/// Operations on ebook format files and their database rows.
#[derive(Debug)]
pub struct Formats {
    library: Library,
}

impl Clone for Formats {
    fn clone(&self) -> (r: Self)
        ensures
            r.library_spec() == self.library_spec(),
    {
        Formats { library: self.library.clone() }
    }
}

impl Formats {
    /// The library these operations act on.
    pub closed spec fn library_spec(&self) -> Library {
        self.library
    }

    pub(crate) fn new(library: Library) -> (r: Self)
        ensures
            r.library_spec() == library,
    {
        Formats { library }
    }

    /// The library these operations act on.
    pub fn library(&self) -> (r: &Library)
        ensures
            *r == self.library_spec(),
    {
        &self.library
    }
}

impl Formats {
    /// Checks that format writes are available.
    ///
    /// Returns [`Error::UnsupportedOperation`] naming `operation` when the
    /// library is read-only, has pending recovery, or has active full-text
    /// search state.
    pub fn check_write(&self, operation: &'static str) -> (r: Result<(), Error>)
        ensures
            r is Ok <==> self.library_spec().capabilities_spec().write_formats,
            r matches Err(e) ==> e is UnsupportedOperation,
    {
        if !self.library.capabilities().write_formats {
            return Err(
                unsupported(
                    operation,
                    "read-write mode and inactive full-text-search state are required",
                ),
            );
        }
        Ok(())
    }
}

/// Finds the first format of a book named `name`, ASCII case ignored.
pub fn find_format(formats: &Vec<Format>, name: &str) -> (r: Option<usize>)
    ensures
        r matches Some(i) ==> i < formats@.len() && eq_ignore_ascii_case(formats@[i as int].format@, name@)
            && forall|j: int| 0 <= j < i ==> !eq_ignore_ascii_case(#[trigger] formats@[j].format@, name@),
        r is None ==> forall|j: int|
            0 <= j < formats@.len() ==> !eq_ignore_ascii_case(#[trigger] formats@[j].format@, name@),
{
    let mut i: usize = 0;
    while i < formats.len()
        invariant
            i <= formats@.len(),
            forall|j: int| 0 <= j < i ==> !eq_ignore_ascii_case(#[trigger] formats@[j].format@, name@),
        decreases formats@.len() - i,
    {
        if equal_ignore_ascii_case(formats[i].format.as_str(), name) {
            return Some(i);
        }
        i = i + 1;
    }
    None
}

/// The file-name stem a written format takes: the stem of the row it
/// replaces, else the stem of the book's first format row, else the
/// book's own `<title> - <first author>` stem.
pub open spec fn write_stem_spec(
    existing: Option<Seq<char>>,
    first_row: Option<Seq<char>>,
    title: Seq<char>,
    first_author: Option<Seq<char>>,
) -> Seq<char> {
    match existing {
        Some(stem) => stem,
        None => match first_row {
            Some(stem) => stem,
            None => format_stem_spec(
                title,
                match first_author {
                    Some(a) => a,
                    None => unknown(),
                },
            ),
        },
    }
}

/// Where a format write goes.
#[derive(Clone, Debug)]
pub struct FormatWritePlan {
    /// Normalized format name.
    pub format: String,
    /// File-name stem.
    pub stem: String,
    /// File name in the book directory.
    pub file_name: String,
}

/// Plans writing a format to a book: normalizes the format, refuses to add
/// a format the book already has (unless replacing), and chooses the file
/// name from the existing row's stem, else the book's first row's stem,
/// else the book's title and first author.
///
/// Returns [`Error::InvalidInput`] for an invalid format name or an
/// existing format when `replace` is false.
pub fn plan_format_write(
    format: &str,
    replace: bool,
    existing: Option<&FormatRecoveryState>,
    first_row_stem: Option<&str>,
    title: &str,
    first_author: Option<&str>,
) -> (r: Result<FormatWritePlan, Error>)
    ensures
        r is Ok <==> valid_format(format@) && (existing is Some ==> replace),
        r matches Ok(p) ==> {
            &&& p.format@ == format@.map_values(|c: char| ascii_upper(c))
            &&& p.stem@ == write_stem_spec(
                match existing {
                    Some(e) => Some(e.stem@),
                    None => None,
                },
                match first_row_stem {
                    Some(s) => Some(s@),
                    None => None,
                },
                title@,
                match first_author {
                    Some(a) => Some(a@),
                    None => None,
                },
            )
            &&& p.file_name@ == format_file_name_spec(p.stem@, p.format@)
        },
        r matches Err(e) ==> e matches Error::InvalidInput { field, .. } && field == "format",
{
    let format = format_name(format)?;
    if existing.is_some() && !replace {
        return Err(invalid_input("format", "the book already has this format"));
    }
    let stem = match existing {
        Some(e) => e.stem.clone(),
        None => match first_row_stem {
            Some(s) => s.to_owned(),
            None => format_stem(
                title,
                match first_author {
                    Some(a) => a,
                    None => "Unknown",
                },
            ),
        },
    };
    proof {
        reveal_strlit("Unknown");
    }
    let file_name = format_file_name(stem.as_str(), format.as_str());
    Ok(FormatWritePlan { format, stem, file_name })
}

/// Whether an asset that failed to install can be put back: the old file
/// is still in place, or only its backup exists, or there was none.
pub open spec fn restore_uninstalled_ok(
    destination_exists: bool,
    backup_exists: bool,
    before_file: bool,
) -> bool {
    (!destination_exists && backup_exists && before_file) || (destination_exists && !backup_exists
        && before_file) || (!destination_exists && !backup_exists && !before_file)
}

/// Decides how to undo an asset installation that failed before the staged
/// file was in place: rename the backup back only when the old file was
/// moved aside.
///
/// Returns `true` to rename the backup to the destination. Returns
/// [`Error::UnsupportedOperation`] for an ambiguous state.
pub fn restore_uninstalled_step(destination_exists: bool, backup_exists: bool, before_file: bool) -> (r:
    Result<bool, Error>)
    ensures
        r is Ok <==> restore_uninstalled_ok(destination_exists, backup_exists, before_file),
        r matches Ok(rename) ==> rename == (!destination_exists && backup_exists),
        r matches Err(e) ==> e is UnsupportedOperation,
{
    if !destination_exists && backup_exists && before_file {
        Ok(true)
    } else if (destination_exists && !backup_exists && before_file) || (!destination_exists
        && !backup_exists && !before_file) {
        Ok(false)
    } else {
        Err(unsupported("restore uninstalled asset", "asset and backup paths have an ambiguous state"))
    }
}

/// A `data` row of a book: row ID, format, stored size and file stem.
#[derive(Clone, Debug)]
pub struct FormatRow {
    /// Row ID.
    pub id: i64,
    /// Logical format as stored.
    pub format: String,
    /// Stored uncompressed size.
    pub size: i64,
    /// File-name stem.
    pub stem: String,
}

/// The size a stored size reports: the value when it is not negative,
/// zero otherwise.
pub open spec fn reported_size(size: i64) -> u64 {
    if size >= 0 {
        size as u64
    } else {
        0
    }
}

impl Formats {
    /// The formats of a book from its `data` rows, in row order: each file
    /// is `<stem>.<format in lower case>` in the book's directory, with the
    /// size observed on disk (`file_sizes`, one per row).
    ///
    /// Returns [`Error::PathEscape`] for a stored book directory that is not
    /// relative.
    pub fn list(&self, book_relative: &str, rows: &Vec<FormatRow>, file_sizes: &Vec<Option<u64>>) -> (r:
        Result<Vec<Format>, Error>)
        requires
            file_sizes@.len() == rows@.len(),
        ensures
            r is Ok <==> valid_relative(book_relative@),
            r matches Ok(v) ==> v@.len() == rows@.len() && forall|i: int|
                0 <= i < rows@.len() ==> {
                    let f = #[trigger] v@[i];
                    &&& f.id@ == rows@[i].id
                    &&& f.format@ == rows@[i].format@
                    &&& f.stored_size == reported_size(rows@[i].size)
                    &&& f.file_size == file_sizes@[i]
                    &&& f.path@ == join_spec(
                        self.library_spec().root_spec(),
                        join_spec(
                            book_relative@,
                            format_file_name_spec(rows@[i].stem@, rows@[i].format@),
                        ),
                    )
                },
            r matches Err(e) ==> e is PathEscape,
    {
        validate_relative(book_relative)?;
        let mut out: Vec<Format> = Vec::new();
        let mut i: usize = 0;
        while i < rows.len()
            invariant
                file_sizes@.len() == rows@.len(),
                i <= rows@.len(),
                out@.len() == i,
                forall|j: int|
                    0 <= j < i ==> {
                        let f = #[trigger] out@[j];
                        &&& f.id@ == rows@[j].id
                        &&& f.format@ == rows@[j].format@
                        &&& f.stored_size == reported_size(rows@[j].size)
                        &&& f.file_size == file_sizes@[j]
                        &&& f.path@ == join_spec(
                            self.library_spec().root_spec(),
                            join_spec(
                                book_relative@,
                                format_file_name_spec(rows@[j].stem@, rows@[j].format@),
                            ),
                        )
                    },
            decreases rows@.len() - i,
        {
            let row = &rows[i];
            let name = format_file_name(row.stem.as_str(), row.format.as_str());
            let relative = join(book_relative, name.as_str());
            let path = join(self.library.root(), relative.as_str());
            let stored_size: u64 = if row.size >= 0 {
                row.size as u64
            } else {
                0
            };
            out.push(
                Format {
                    id: FormatId::new(row.id),
                    format: row.format.clone(),
                    stored_size,
                    file_size: file_sizes[i],
                    path,
                },
            );
            i = i + 1;
        }
        Ok(out)
    }

    /// Plans adding a format from a source file: the format its extension
    /// names, refused when the book already has it (see
    /// [`plan_format_write`]).
    ///
    /// Returns [`Error::InvalidInput`] for a source without a valid format
    /// extension or an existing format, and [`Error::UnsupportedOperation`]
    /// when format writes are unavailable.
    pub fn add(
        &self,
        source: &str,
        existing: Option<&FormatRecoveryState>,
        first_row_stem: Option<&str>,
        title: &str,
        first_author: Option<&str>,
    ) -> (r: Result<FormatWritePlan, Error>)
        ensures
            r is Ok <==> (extension_spec(source@) matches Some(e) && valid_format(e))
                && self.library_spec().capabilities_spec().write_formats && existing is None,
            r matches Ok(p) ==> extension_spec(source@) matches Some(e) && p.format@ == e.map_values(
                |c: char| ascii_upper(c),
            ) && p.stem@ == write_stem_spec(
                match existing {
                    Some(x) => Some(x.stem@),
                    None => None,
                },
                match first_row_stem {
                    Some(s) => Some(s@),
                    None => None,
                },
                title@,
                match first_author {
                    Some(a) => Some(a@),
                    None => None,
                },
            ) && p.file_name@ == format_file_name_spec(p.stem@, p.format@),
            r matches Err(e) ==> source_refusal(source@, self.library_spec(), e),
    {
        let format = format_from_path(source)?;
        self.check_write("write format")?;
        plan_format_write(format.as_str(), false, existing, first_row_stem, title, first_author)
    }

    /// Plans replacing (or adding) a format from a source file (see
    /// [`plan_format_write`]).
    ///
    /// Returns [`Error::InvalidInput`] for a source without a valid format
    /// extension, and [`Error::UnsupportedOperation`] when format writes are
    /// unavailable.
    pub fn replace(
        &self,
        source: &str,
        existing: Option<&FormatRecoveryState>,
        first_row_stem: Option<&str>,
        title: &str,
        first_author: Option<&str>,
    ) -> (r: Result<FormatWritePlan, Error>)
        ensures
            r is Ok <==> (extension_spec(source@) matches Some(e) && valid_format(e))
                && self.library_spec().capabilities_spec().write_formats,
            r matches Ok(p) ==> extension_spec(source@) matches Some(e) && p.format@ == e.map_values(
                |c: char| ascii_upper(c),
            ) && p.stem@ == write_stem_spec(
                match existing {
                    Some(x) => Some(x.stem@),
                    None => None,
                },
                match first_row_stem {
                    Some(s) => Some(s@),
                    None => None,
                },
                title@,
                match first_author {
                    Some(a) => Some(a@),
                    None => None,
                },
            ) && p.file_name@ == format_file_name_spec(p.stem@, p.format@),
            r matches Err(e) ==> source_refusal(source@, self.library_spec(), e),
    {
        let format = format_from_path(source)?;
        self.check_write("write format")?;
        plan_format_write(format.as_str(), true, existing, first_row_stem, title, first_author)
    }
}

/// How a format write from a source file is refused, in the order the
/// checks run: a source without a valid format extension with
/// [`Error::InvalidInput`] (field `format path` when there is no
/// extension, `format` otherwise), unavailable format writes with
/// [`Error::UnsupportedOperation`], and a format the book already has (on
/// an addition) with [`Error::InvalidInput`] (field `format`).
pub open spec fn source_refusal(source: Seq<char>, library: Library, e: Error) -> bool {
    match extension_spec(source) {
        None => e matches Error::InvalidInput { field, .. } && field == "format path",
        Some(x) => if !valid_format(x) {
            e matches Error::InvalidInput { field, .. } && field == "format"
        } else if !library.capabilities_spec().write_formats {
            e is UnsupportedOperation
        } else {
            e matches Error::InvalidInput { field, .. } && field == "format"
        },
    }
}

} // verus!
