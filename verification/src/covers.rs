use crate::error::Error;
use crate::library::Library;
use crate::paths::{join, join_spec, valid_relative, validate_relative};
use vstd::prelude::*;

verus! {

/// Operations on `cover.jpg`.
#[derive(Debug)]
pub struct Covers {
    library: Library,
}

impl Clone for Covers {
    fn clone(&self) -> (r: Self)
        ensures
            r.library_spec() == self.library_spec(),
    {
        Covers { library: self.library.clone() }
    }
}

impl Covers {
    /// The library these operations act on.
    pub closed spec fn library_spec(&self) -> Library {
        self.library
    }

    pub(crate) fn new(library: Library) -> (r: Self)
        ensures
            r.library_spec() == library,
    {
        Covers { library }
    }

    /// The library these operations act on.
    pub fn library(&self) -> (r: &Library)
        ensures
            *r == self.library_spec(),
    {
        &self.library
    }
}

/// The path of a book's cover relative to its directory.
pub open spec fn cover_name() -> Seq<char> {
    "cover.jpg"@
}

/// The path of a book's `cover.jpg` relative to the library root, given the
/// book's stored directory.
///
/// Returns [`Error::PathEscape`] for a directory that is not a relative path
/// of normal components.
pub fn cover_relative(book_relative: &str) -> (r: Result<String, Error>)
    ensures
        r is Ok <==> valid_relative(book_relative@),
        r matches Ok(p) ==> p@ == join_spec(book_relative@, cover_name()),
        r matches Err(e) ==> e is PathEscape,
{
    validate_relative(book_relative)?;
    proof {
        reveal_strlit("cover.jpg");
    }
    Ok(join(book_relative, "cover.jpg"))
}

impl Covers {
    /// The checked path of a book's `cover.jpg` when the database says it
    /// has a cover, given the book's stored relative directory.
    ///
    /// Returns [`Error::PathEscape`] for a stored directory that is not a
    /// relative path of normal components.
    pub fn path(&self, book_relative: &str, has_cover: bool) -> (r: Result<Option<String>, Error>)
        ensures
            r is Ok <==> valid_relative(book_relative@),
            r matches Ok(p) ==> (has_cover <==> p is Some),
            r matches Ok(Some(p)) ==> p@ == join_spec(
                self.library_spec().root_spec(),
                join_spec(book_relative@, cover_name()),
            ),
            r matches Err(e) ==> e is PathEscape,
    {
        validate_relative(book_relative)?;
        if !has_cover {
            return Ok(None);
        }
        proof {
            reveal_strlit("cover.jpg");
        }
        let relative = join(book_relative, "cover.jpg");
        Ok(Some(join(self.library.root(), relative.as_str())))
    }
}

} // verus!
