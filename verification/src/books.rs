use crate::error::{invalid_input, unsupported, Error};
use crate::library::{Capabilities, Library};
use crate::model::DeletionMode;
use crate::model::{Format, Identifier};
use crate::paths::{
    ascii_upper, book_relative_path, book_relative_path_spec, extension_spec, file_name,
    file_name_spec, format_file_name, format_file_name_spec, format_from_path, format_stem,
    format_stem_spec, path_components, same_path, valid_format,
};
use crate::sorting::{book_author_sort, conservative_title_sort, joined_author_sort, title_sort_spec};
use crate::ids::BookId;
use crate::text::{chars_of, is_ws, string_of, trim, trim_ws};
use vstd::prelude::*;

verus! {

/// Operations on book records and core metadata.
#[derive(Debug)]
pub struct Books {
    library: Library,
}

impl Clone for Books {
    fn clone(&self) -> (r: Self)
        ensures
            r.library_spec() == self.library_spec(),
    {
        Books { library: self.library.clone() }
    }
}

impl Books {
    /// The library these operations act on.
    pub closed spec fn library_spec(&self) -> Library {
        self.library
    }

    pub(crate) fn new(library: Library) -> (r: Self)
        ensures
            r.library_spec() == library,
    {
        Books { library }
    }

    /// The library these operations act on.
    pub fn library(&self) -> (r: &Library)
        ensures
            *r == self.library_spec(),
    {
        &self.library
    }
}


/// The trimmed value, or `fallback` when nothing is left.
pub open spec fn nonempty_or_spec(value: Seq<char>, fallback: Seq<char>) -> Seq<char> {
    if trim_ws(value).len() == 0 {
        fallback
    } else {
        trim_ws(value)
    }
}

/// The trimmed value, or `fallback` when nothing is left.
pub fn nonempty_or(value: &str, fallback: &str) -> (r: String)
    ensures
        r@ == nonempty_or_spec(value@, fallback@),
{
    let t = trim(&chars_of(value));
    if t.len() == 0 {
        fallback.to_owned()
    } else {
        string_of(&t)
    }
}

/// Names the result of std's `str::to_lowercase` (Unicode lower case).
pub uninterp spec fn lowercase_of(s: Seq<char>) -> Seq<char>;

/// Calls std's `str::to_lowercase`. The contract only names the result: it
/// is a function of `s`.
#[verifier::external_body]
fn to_lowercase(s: &str) -> (r: String)
    ensures
        r@ == lowercase_of(s@),
{
    s.to_lowercase()
}

/// Some earlier kept value equals `t` when both are lower-cased.
pub open spec fn seen_lower(kept: Seq<Seq<char>>, t: Seq<char>) -> bool {
    exists|j: int| 0 <= j < kept.len() && lowercase_of(#[trigger] kept[j]) == lowercase_of(t)
}

/// The trimmed, non-empty values in order, keeping only the first of values
/// that are equal once lower-cased.
pub open spec fn cleaned(values: Seq<Seq<char>>) -> Seq<Seq<char>>
    decreases values.len(),
{
    if values.len() == 0 {
        Seq::empty()
    } else {
        let kept = cleaned(values.drop_last());
        let t = trim_ws(values.last());
        if t.len() == 0 || seen_lower(kept, t) {
            kept
        } else {
            kept.push(t)
        }
    }
}

/// [`cleaned`] values, or just `fallback` when none is left.
pub open spec fn clean_values_spec(values: Seq<Seq<char>>, fallback: Seq<char>) -> Seq<Seq<char>> {
    if cleaned(values).len() == 0 {
        seq![fallback]
    } else {
        cleaned(values)
    }
}

/// The views of a list of strings.
pub open spec fn views(values: Seq<String>) -> Seq<Seq<char>> {
    values.map_values(|v: String| v@)
}

/// Trims values and drops empty ones and case-insensitive duplicates,
/// keeping the first of each (see [`cleaned`]); this is how a book's
/// authors, tags and languages are linked.
pub fn distinct_values(values: &Vec<String>) -> (r: Vec<String>)
    ensures
        views(r@) == cleaned(views(values@)),
{
    let ghost input = views(values@);
    let mut kept: Vec<String> = Vec::new();
    let mut lowered: Vec<String> = Vec::new();
    let mut i: usize = 0;
    while i < values.len()
        invariant
            i <= values.len(),
            input == views(values@),
            views(kept@) == cleaned(input.take(i as int)),
            lowered.len() == kept.len(),
            forall|j: int| 0 <= j < kept.len() ==> #[trigger] lowered@[j]@ == lowercase_of(
                kept@[j]@,
            ),
        decreases values.len() - i,
    {
        let t = trim(&chars_of(values[i].as_str()));
        let text = string_of(&t);
        let lower = to_lowercase(text.as_str());
        assert(input.take(i + 1).drop_last() =~= input.take(i as int));
        assert(input.take(i + 1).last() == values@[i as int]@);
        let mut seen = false;
        let mut j: usize = 0;
        while j < lowered.len()
            invariant
                j <= lowered.len(),
                lower@ == lowercase_of(text@),
                lowered.len() == kept.len(),
                forall|k: int| 0 <= k < kept.len() ==> #[trigger] lowered@[k]@ == lowercase_of(
                    kept@[k]@,
                ),
                seen <==> exists|k: int| 0 <= k < j && lowercase_of(#[trigger] kept@[k]@)
                    == lowercase_of(text@),
            decreases lowered.len() - j,
        {
            if lowered[j] == lower {
                seen = true;
            }
            j = j + 1;
        }
        proof {
            let vk = views(kept@);
            assert(seen <==> seen_lower(vk, text@)) by {
                if seen {
                    let k = choose|k: int| 0 <= k < kept.len() && lowercase_of(
                        #[trigger] kept@[k]@,
                    ) == lowercase_of(text@);
                    assert(vk[k] == kept@[k]@);
                }
                if seen_lower(vk, text@) {
                    let k = choose|k: int| 0 <= k < vk.len() && lowercase_of(#[trigger] vk[k])
                        == lowercase_of(text@);
                    assert(vk[k] == kept@[k]@);
                }
            }
        }
        if t.len() != 0 && !seen {
            kept.push(text);
            lowered.push(lower);
            assert(views(kept@) =~= cleaned(input.take(i as int)).push(t@));
        }
        i = i + 1;
    }
    assert(input.take(values.len() as int) =~= input);
    kept
}

/// Trims values, drops empty ones and case-insensitive duplicates, and falls
/// back to `fallback` when nothing is left (see [`clean_values_spec`]).
pub fn clean_values(values: &Vec<String>, fallback: &str) -> (r: Vec<String>)
    ensures
        views(r@) == clean_values_spec(views(values@), fallback@),
{
    let kept = distinct_values(values);
    if kept.len() == 0 {
        let mut fallback_values: Vec<String> = Vec::new();
        fallback_values.push(fallback.to_owned());
        assert(views(fallback_values@) =~= seq![fallback@]);
        fallback_values
    } else {
        kept
    }
}

/// A three-letter ASCII language code, as Calibre stores it.
pub open spec fn is_language_code(s: Seq<char>) -> bool {
    s.len() == 3 && forall|i: int| 0 <= i < 3 ==> (('a' <= #[trigger] s[i] <= 'z') || ('A' <= s[i]
        <= 'Z'))
}

/// Checks that every language is a three-letter ISO 639 code.
///
/// Returns [`Error::InvalidInput`] for the first value that is not.
pub fn validate_languages(languages: &Vec<String>) -> (r: Result<(), Error>)
    ensures
        r is Ok <==> forall|i: int| 0 <= i < languages.len() ==> is_language_code(
            #[trigger] languages@[i]@,
        ),
        r matches Err(e) ==> e matches Error::InvalidInput { field, .. } && field == "languages",
{
    let mut i: usize = 0;
    while i < languages.len()
        invariant
            i <= languages.len(),
            forall|j: int| 0 <= j < i ==> is_language_code(#[trigger] languages@[j]@),
        decreases languages.len() - i,
    {
        let code = chars_of(languages[i].as_str());
        let mut ok = code.len() == 3;
        let mut k: usize = 0;
        while ok && k < code.len()
            invariant
                ok ==> code.len() == 3,
                k <= code.len(),
                ok ==> forall|m: int| 0 <= m < k ==> (('a' <= #[trigger] code@[m] <= 'z') || ('A'
                    <= code@[m] <= 'Z')),
                !ok ==> !is_language_code(code@),
            decreases code.len() - k,
        {
            let c = code[k];
            if !(('a' <= c && c <= 'z') || ('A' <= c && c <= 'Z')) {
                ok = false;
            }
            k = k + 1;
        }
        if !ok {
            assert(!is_language_code(languages@[i as int]@));
            return Err(
                invalid_input("languages", "expected a three-letter ISO 639 code stored by Calibre"),
            );
        }
        i = i + 1;
    }
    Ok(())
}

/// One character of a `LIKE` pattern, escaped with `\`.
pub open spec fn like_escape_char(c: char) -> Seq<char> {
    if c == '\\' || c == '%' || c == '_' {
        seq!['\\', c]
    } else {
        seq![c]
    }
}

/// `s` with `\`, `%` and `_` escaped for a `LIKE ... ESCAPE '\'` pattern.
pub open spec fn like_escaped(s: Seq<char>) -> Seq<char>
    decreases s.len(),
{
    if s.len() == 0 {
        s
    } else {
        like_escaped(s.drop_last()) + like_escape_char(s.last())
    }
}

/// Whether a `LIKE ... ESCAPE '\'` pattern holds no wildcard: every `%`
/// and `_` in it is escaped, and every `\` escapes the character after it.
pub open spec fn wildcard_free(p: Seq<char>) -> bool
    decreases p.len(),
{
    if p.len() == 0 {
        true
    } else if p[0] == '\\' {
        p.len() >= 2 && wildcard_free(p.skip(2))
    } else if p[0] == '%' || p[0] == '_' {
        false
    } else {
        wildcard_free(p.skip(1))
    }
}

/// The text a `LIKE ... ESCAPE '\'` pattern spells out: each escaped
/// character stands for itself.
pub open spec fn like_spelled(p: Seq<char>) -> Seq<char>
    decreases p.len(),
{
    if p.len() == 0 {
        p
    } else if p[0] == '\\' && p.len() >= 2 {
        seq![p[1]] + like_spelled(p.skip(2))
    } else {
        seq![p[0]] + like_spelled(p.skip(1))
    }
}

proof fn lemma_like_escaped_append(a: Seq<char>, b: Seq<char>)
    ensures
        like_escaped(a + b) == like_escaped(a) + like_escaped(b),
    decreases b.len(),
{
    if b.len() == 0 {
        assert(a + b =~= a);
        assert(like_escaped(a) + like_escaped(b) =~= like_escaped(a));
    } else {
        lemma_like_escaped_append(a, b.drop_last());
        assert((a + b).drop_last() =~= a + b.drop_last());
        assert((a + b).last() == b.last());
        assert(like_escaped(a + b) =~= like_escaped(a) + like_escaped(b));
    }
}

/// An escaped fragment is a pattern without wildcards that spells out
/// exactly the fragment: a `LIKE` over it matches the fragment's text and
/// nothing else.
pub proof fn lemma_like_escaped_is_literal(s: Seq<char>)
    ensures
        wildcard_free(like_escaped(s)),
        like_spelled(like_escaped(s)) == s,
    decreases s.len(),
{
    if s.len() > 0 {
        let c = s[0];
        let rest = s.skip(1);
        lemma_like_escaped_is_literal(rest);
        assert(s =~= seq![c] + rest);
        lemma_like_escaped_append(seq![c], rest);
        assert(seq![c].drop_last() =~= Seq::<char>::empty());
        assert(seq![c].last() == c);
        assert(like_escaped(Seq::<char>::empty()) == Seq::<char>::empty());
        assert(like_escaped(seq![c]) =~= like_escape_char(c));
        let p = like_escaped(s);
        let r = like_escaped(rest);
        assert(p == like_escape_char(c) + r);
        if c == '\\' || c == '%' || c == '_' {
            assert(p[0] == '\\');
            assert(p[1] == c);
            assert(p.skip(2) =~= r);
            assert(like_spelled(p) =~= seq![c] + rest);
        } else {
            assert(p[0] == c);
            assert(p.skip(1) =~= r);
            assert(like_spelled(p) =~= seq![c] + rest);
        }
    }
}

/// Escapes a fragment for a `LIKE ... ESCAPE '\'` pattern.
pub fn escape_like(value: &str) -> (r: String)
    ensures
        r@ == like_escaped(value@),
{
    let s = chars_of(value);
    let mut out: Vec<char> = Vec::new();
    let mut i: usize = 0;
    while i < s.len()
        invariant
            i <= s.len(),
            out@ == like_escaped(s@.take(i as int)),
        decreases s.len() - i,
    {
        let c = s[i];
        if c == '\\' || c == '%' || c == '_' {
            out.push('\\');
        }
        out.push(c);
        i = i + 1;
        assert(s@.take(i as int).drop_last() =~= s@.take(i - 1));
        assert(out@ =~= like_escaped(s@.take(i as int)));
    }
    assert(s@.take(s.len() as int) =~= s@);
    string_of(&out)
}

/// A file size as Calibre's signed `SQLite` size column stores it.
///
/// Returns [`Error::InvalidInput`] for a size above `i64::MAX`.
pub fn i64_size(size: u64) -> (r: Result<i64, Error>)
    ensures
        r is Ok <==> size <= i64::MAX,
        r matches Ok(v) ==> v as int == size as int,
        r matches Err(e) ==> e is InvalidInput,
{
    if size <= i64::MAX as u64 {
        Ok(size as i64)
    } else {
        Err(invalid_input("format size", "file is too large for Calibre's SQLite size column"))
    }
}

/// The upper-case format names of new format sources, in order, when every
/// source has a valid extension and no format occurs twice.
pub open spec fn new_format_names(paths: Seq<Seq<char>>) -> Option<Seq<Seq<char>>>
    decreases paths.len(),
{
    if paths.len() == 0 {
        Some(Seq::empty())
    } else {
        match new_format_names(paths.drop_last()) {
            None => None,
            Some(names) => match extension_spec(paths.last()) {
                Some(e) => if valid_format(e) && !names.contains(
                    e.map_values(|c: char| ascii_upper(c)),
                ) {
                    Some(names.push(e.map_values(|c: char| ascii_upper(c))))
                } else {
                    None
                },
                None => None,
            },
        }
    }
}

proof fn lemma_format_names_none_extends(t: Seq<Seq<char>>, k: int)
    requires
        0 <= k <= t.len(),
        new_format_names(t.take(k)) is None,
    ensures
        new_format_names(t) is None,
    decreases t.len(),
{
    if k == t.len() {
        assert(t.take(k) =~= t);
    } else {
        assert(t.drop_last().take(k) =~= t.take(k));
        lemma_format_names_none_extends(t.drop_last(), k);
    }
}

/// The formats that new book sources provide, one per source.
///
/// Returns [`Error::InvalidInput`] for a source without a valid format
/// extension or a format given twice.
pub fn format_names_for_sources(paths: &Vec<String>) -> (r: Result<Vec<String>, Error>)
    ensures
        r is Ok <==> new_format_names(views(paths@)) is Some,
        r matches Ok(names) ==> new_format_names(views(paths@)) == Some(views(names@)),
        r matches Err(e) ==> e is InvalidInput,
{
    let ghost input = views(paths@);
    let mut names: Vec<String> = Vec::new();
    let mut i: usize = 0;
    while i < paths.len()
        invariant
            i <= paths.len(),
            input == views(paths@),
            new_format_names(input.take(i as int)) == Some(views(names@)),
        decreases paths.len() - i,
    {
        assert(input.take(i + 1).drop_last() =~= input.take(i as int));
        assert(input.take(i + 1).last() == paths@[i as int]@);
        let name = match format_from_path(paths[i].as_str()) {
            Ok(name) => name,
            Err(e) => {
                proof {
                    lemma_format_names_none_extends(input, i + 1);
                }
                return Err(e);
            },
        };
        let mut duplicate = false;
        let mut j: usize = 0;
        while j < names.len()
            invariant
                j <= names.len(),
                duplicate <==> exists|k: int| 0 <= k < j && #[trigger] names@[k]@ == name@,
            decreases names.len() - j,
        {
            if names[j] == name {
                duplicate = true;
            }
            j = j + 1;
        }
        if duplicate {
            proof {
                let k = choose|k: int| 0 <= k < names.len() && #[trigger] names@[k]@ == name@;
                assert(views(names@)[k] == name@);
                assert(views(names@).contains(name@));
                lemma_format_names_none_extends(input, i + 1);
            }
            return Err(invalid_input("formats", "duplicate format"));
        }
        assert(!views(names@).contains(name@)) by {
            if views(names@).contains(name@) {
                let k = choose|k: int| 0 <= k < views(names@).len() && views(names@)[k] == name@;
                assert(names@[k]@ == name@);
            }
        }
        names.push(name);
        assert(views(names@) =~= views(names@).drop_last().push(name@));
        i = i + 1;
    }
    assert(input.take(paths.len() as int) =~= input);
    Ok(names)
}

impl Books {
    /// Decides whether a book may be removed in `mode`: into Calibre's trash
    /// when the capability report offers trash writes, permanently when it
    /// offers permanent deletion.
    ///
    /// Returns [`Error::UnsupportedOperation`] otherwise.
    pub fn check_removal(&self, mode: DeletionMode) -> (r: Result<(), Error>)
        ensures
            r is Ok <==> match mode {
                DeletionMode::Trash => self.library_spec().capabilities_spec().calibre_trash,
                DeletionMode::Permanent => self.library_spec().capabilities_spec().permanent_delete,
            },
            r matches Err(e) ==> e is UnsupportedOperation,
    {
        match mode {
            DeletionMode::Trash => {
                if !self.library.capabilities().calibre_trash {
                    return Err(
                        unsupported(
                            "move book to Calibre trash",
                            "read-write mode without custom columns or full-text-search state is required",
                        ),
                    );
                }
            },
            DeletionMode::Permanent => {
                if !self.library.capabilities().permanent_delete {
                    return Err(
                        unsupported(
                            "permanently delete book",
                            "active custom-column or full-text-search state requires Calibre-specific cleanup",
                        ),
                    );
                }
            },
        }
        Ok(())
    }
}

// ---------------------------------------------------------------------------
// New books
// ---------------------------------------------------------------------------
/// The name written for a missing title or author.
pub open spec fn unknown() -> Seq<char> {
    "Unknown"@
}

/// Every value is a three-letter language code.
pub open spec fn languages_valid(languages: Seq<String>) -> bool {
    forall|i: int| 0 <= i < languages.len() ==> is_language_code(#[trigger] languages[i]@)
}

/// The core values a new book is stored with.
#[derive(Clone, Debug)]
pub struct NewBookRecord {
    /// Trimmed title, `Unknown` when empty.
    pub title: String,
    /// Cleaned authors, `Unknown` alone when none is left.
    pub authors: Vec<String>,
    /// Title sort of the title.
    pub title_sort: String,
    /// Author sorts of the authors joined with ` & `.
    pub author_sort: String,
}

/// Computes the core values of a new book from its input: the title
/// trimmed (`Unknown` when empty), the authors cleaned, and both sort
/// values.
///
/// Returns [`Error::InvalidInput`] when a language is not a three-letter
/// code.
pub fn prepare_new_book(title: &str, authors: &Vec<String>, languages: &Vec<String>) -> (r: Result<
    NewBookRecord,
    Error,
>)
    ensures
        r is Ok <==> languages_valid(languages@),
        r matches Ok(b) ==> {
            &&& b.title@ == nonempty_or_spec(title@, unknown())
            &&& views(b.authors@) == clean_values_spec(views(authors@), unknown())
            &&& b.title_sort@ == title_sort_spec(b.title@)
            &&& b.author_sort@ == joined_author_sort(views(b.authors@))
        },
        r matches Err(e) ==> e matches Error::InvalidInput { field, .. } && field == "languages",
{
    let title = nonempty_or(title, "Unknown");
    let authors = clean_values(authors, "Unknown");
    validate_languages(languages)?;
    let title_sort = conservative_title_sort(title.as_str());
    let author_sort = book_author_sort(&authors);
    assert(authors@.map_values(|a: String| a@) == views(authors@));
    Ok(NewBookRecord { title, authors, title_sort, author_sort })
}

/// Where a new book's files go.
#[derive(Clone, Debug)]
pub struct NewBookFiles {
    /// The book directory relative to the library root.
    pub relative_path: String,
    /// The file-name stem of its formats.
    pub stem: String,
    /// The formats of the sources, in order.
    pub formats: Vec<String>,
    /// The file name of each format, in order.
    pub file_names: Vec<String>,
}

/// Computes where a new book's files go once its ID is known: its
/// directory, the stem of its formats, and each source's format and file
/// name.
///
/// Returns [`Error::InvalidInput`] for a source without a valid format
/// extension or a format given twice.
pub fn plan_new_book_files(title: &str, first_author: &str, id: BookId, sources: &Vec<String>) -> (r:
    Result<NewBookFiles, Error>)
    ensures
        r is Ok <==> new_format_names(views(sources@)) is Some,
        r matches Ok(f) ==> {
            &&& f.relative_path@ == book_relative_path_spec(title@, first_author@, id@ as int)
            &&& f.stem@ == format_stem_spec(title@, first_author@)
            &&& new_format_names(views(sources@)) == Some(views(f.formats@))
            &&& f.file_names@.len() == f.formats@.len()
            &&& forall|i: int|
                0 <= i < f.formats@.len() ==> #[trigger] f.file_names@[i]@ == format_file_name_spec(
                    f.stem@,
                    f.formats@[i]@,
                )
        },
        r matches Err(e) ==> e is InvalidInput,
{
    let formats = format_names_for_sources(sources)?;
    let relative_path = book_relative_path(title, first_author, id.get());
    let stem = format_stem(title, first_author);
    let mut file_names: Vec<String> = Vec::new();
    let mut i: usize = 0;
    while i < formats.len()
        invariant
            i <= formats.len(),
            file_names@.len() == i,
            forall|j: int|
                0 <= j < i ==> #[trigger] file_names@[j]@ == format_file_name_spec(
                    stem@,
                    formats@[j]@,
                ),
        decreases formats.len() - i,
    {
        file_names.push(format_file_name(stem.as_str(), formats[i].as_str()));
        i = i + 1;
    }
    Ok(NewBookFiles { relative_path, stem, formats, file_names })
}

// ---------------------------------------------------------------------------
// Book updates
// ---------------------------------------------------------------------------
/// One format-file rename of a book move: from the file's current name to
/// the name its new stem gives it.
#[derive(Clone, Debug)]
pub struct FormatRename {
    /// Current file name.
    pub from: String,
    /// New file name.
    pub to: String,
}

/// The renames a move gives the formats: each file whose name differs from
/// `<stem>.<format>`, in order; `None` when a format path has no file name.
pub open spec fn format_renames(formats: Seq<Format>, stem: Seq<char>) -> Option<
    Seq<(Seq<char>, Seq<char>)>,
>
    decreases formats.len(),
{
    if formats.len() == 0 {
        Some(Seq::empty())
    } else {
        match format_renames(formats.drop_last(), stem) {
            None => None,
            Some(renames) => match file_name_spec(formats.last().path@) {
                None => None,
                Some(name) => {
                    let target = format_file_name_spec(stem, formats.last().format@);
                    if name == target {
                        Some(renames)
                    } else {
                        Some(renames.push((name, target)))
                    }
                },
            },
        }
    }
}

/// The pairs of names of a list of renames.
pub open spec fn rename_views(renames: Seq<FormatRename>) -> Seq<(Seq<char>, Seq<char>)> {
    renames.map_values(|r: FormatRename| (r.from@, r.to@))
}

proof fn lemma_renames_none_extends(t: Seq<Format>, stem: Seq<char>, k: int)
    requires
        0 <= k <= t.len(),
        format_renames(t.take(k), stem) is None,
    ensures
        format_renames(t, stem) is None,
    decreases t.len(),
{
    if k == t.len() {
        assert(t.take(k) =~= t);
    } else {
        assert(t.drop_last().take(k) =~= t.take(k));
        lemma_renames_none_extends(t.drop_last(), stem, k);
    }
}

/// Computes the format-file renames of a book move (see
/// [`format_renames`]).
///
/// Returns [`Error::InvalidInput`] when a format path has no file name.
pub fn plan_format_renames(formats: &Vec<Format>, stem: &str) -> (r: Result<Vec<FormatRename>, Error>)
    ensures
        r is Ok <==> format_renames(formats@, stem@) is Some,
        r matches Ok(renames) ==> format_renames(formats@, stem@) == Some(rename_views(renames@)),
        r matches Err(e) ==> e matches Error::InvalidInput { field, .. } && field == "format path",
{
    let mut renames: Vec<FormatRename> = Vec::new();
    let mut i: usize = 0;
    while i < formats.len()
        invariant
            i <= formats.len(),
            format_renames(formats@.take(i as int), stem@) == Some(rename_views(renames@)),
        decreases formats.len() - i,
    {
        assert(formats@.take(i + 1).drop_last() =~= formats@.take(i as int));
        assert(formats@.take(i + 1).last() == formats@[i as int]);
        let name = match file_name(formats[i].path.as_str()) {
            Some(name) => name,
            None => {
                proof {
                    lemma_renames_none_extends(formats@, stem@, i + 1);
                }
                return Err(invalid_input("format path", "existing format has no filename"));
            },
        };
        let target = format_file_name(stem, formats[i].format.as_str());
        let from = string_of(&name);
        if !(from == target) {
            let ghost before = rename_views(renames@);
            renames.push(FormatRename { from, to: target });
            assert(rename_views(renames@) =~= before.push((name@, target@)));
        }
        i = i + 1;
    }
    assert(formats@.take(formats.len() as int) =~= formats@);
    Ok(renames)
}

/// What an update changes about a book's identity and files.
#[derive(Clone, Debug)]
pub struct BookUpdatePlan {
    /// The title after the update.
    pub title: String,
    /// The authors after the update.
    pub authors: Vec<String>,
    /// The new author sort, when the authors change.
    pub author_sort: Option<String>,
    /// The book directory after the update.
    pub relative_path: String,
    /// Whether the directory moves.
    pub should_move: bool,
    /// The format stem after the update.
    pub stem: String,
    /// The format renames of the move (empty when it does not move).
    pub renames: Vec<FormatRename>,
}

/// The title an update leaves: the new one trimmed (`Unknown` when empty),
/// else the current one.
pub open spec fn updated_title(current: Seq<char>, update: Option<Seq<char>>) -> Seq<char> {
    match update {
        Some(t) => nonempty_or_spec(t, unknown()),
        None => current,
    }
}

/// The authors an update leaves: the new ones cleaned, else the current.
pub open spec fn updated_authors(current: Seq<Seq<char>>, update: Option<Seq<Seq<char>>>) -> Seq<
    Seq<char>,
> {
    match update {
        Some(a) => clean_values_spec(a, unknown()),
        None => current,
    }
}

/// The text of an optional string slice.
pub open spec fn opt_text(o: Option<&str>) -> Option<Seq<char>> {
    match o {
        Some(t) => Some(t@),
        None => None,
    }
}

/// The texts of an optional list.
pub open spec fn opt_views(o: Option<&Vec<String>>) -> Option<Seq<Seq<char>>> {
    match o {
        Some(v) => Some(views(v@)),
        None => None,
    }
}

/// The values of an optional list.
pub open spec fn opt_list(o: Option<&Vec<String>>) -> Option<Seq<String>> {
    match o {
        Some(v) => Some(v@),
        None => None,
    }
}

/// Whether an update can be planned: new languages are valid, and when the
/// book moves every format path has a file name.
pub open spec fn update_ok(
    id: int,
    title: Seq<char>,
    authors: Seq<Seq<char>>,
    relative: Seq<char>,
    formats: Seq<Format>,
    languages: Option<Seq<String>>,
) -> bool {
    &&& (languages matches Some(l) ==> languages_valid(l))
    &&& (path_components(relative) != path_components(
        book_relative_path_spec(title, authors[0], id),
    ) ==> format_renames(formats, format_stem_spec(title, authors[0])) is Some)
}

/// Plans a metadata update: the resulting title and authors, the new author
/// sort when the authors change, and — when the book's directory name
/// changes — the move and the format renames it needs.
///
/// `current_authors` must name at least one author, as every stored book
/// does. Returns [`Error::InvalidInput`] for an invalid language or a
/// format path without a file name.
pub fn plan_book_update(
    id: BookId,
    current_title: &str,
    current_authors: &Vec<String>,
    current_relative: &str,
    current_formats: &Vec<Format>,
    title: Option<&str>,
    authors: Option<&Vec<String>>,
    languages: Option<&Vec<String>>,
) -> (r: Result<BookUpdatePlan, Error>)
    requires
        current_authors@.len() > 0 || authors is Some || (languages matches Some(l)
            && !languages_valid(l@)),
    ensures
        r is Ok <==> update_ok(
            id@ as int,
            updated_title(current_title@, opt_text(title)),
            updated_authors(views(current_authors@), opt_views(authors)),
            current_relative@,
            current_formats@,
            opt_list(languages),
        ),
        r matches Ok(p) ==> {
            let t = updated_title(current_title@, opt_text(title));
            let a = updated_authors(views(current_authors@), opt_views(authors));
            &&& p.title@ == t
            &&& views(p.authors@) == a
            &&& p.author_sort.is_some() == authors.is_some()
            &&& (p.author_sort matches Some(s) ==> s@ == joined_author_sort(a))
            &&& p.relative_path@ == book_relative_path_spec(t, a[0], id@ as int)
            &&& p.stem@ == format_stem_spec(t, a[0])
            &&& p.should_move == (path_components(current_relative@) != path_components(
                p.relative_path@,
            ))
            &&& if p.should_move {
                format_renames(current_formats@, p.stem@) == Some(rename_views(p.renames@))
            } else {
                p.renames@.len() == 0
            }
        },
        r matches Err(e) ==> e matches Error::InvalidInput { field, .. } && field == if opt_list(
            languages,
        ) matches Some(l) && !languages_valid(l) {
            "languages"
        } else {
            "format path"
        },
{
    let new_title = match title {
        Some(t) => nonempty_or(t, "Unknown"),
        None => current_title.to_owned(),
    };
    let new_authors = match authors {
        Some(a) => clean_values(a, "Unknown"),
        None => current_authors.clone(),
    };
    match languages {
        Some(l) => validate_languages(l)?,
        None => {},
    }
    proof {
        if authors is None {
            assert(views(new_authors@) =~= views(current_authors@));
        }
        assert(views(new_authors@).len() > 0);
    }
    assert(views(new_authors@)[0] == new_authors@[0]@);
    let relative_path = book_relative_path(new_title.as_str(), new_authors[0].as_str(), id.get());
    let should_move = !same_path(current_relative, relative_path.as_str());
    let stem = format_stem(new_title.as_str(), new_authors[0].as_str());
    let renames = if should_move {
        plan_format_renames(current_formats, stem.as_str())?
    } else {
        Vec::new()
    };
    let author_sort = match authors {
        Some(_) => {
            let s = book_author_sort(&new_authors);
            assert(new_authors@.map_values(|a: String| a@) == views(new_authors@));
            Some(s)
        },
        None => None,
    };
    Ok(
        BookUpdatePlan {
            title: new_title,
            authors: new_authors,
            author_sort,
            relative_path,
            should_move,
            stem,
            renames,
        },
    )
}

/// Cleaned values are trimmed, non-empty, and pairwise distinct once
/// lower-cased: no two authors, tags or languages differ only in case.
pub proof fn lemma_cleaned_values_distinct(values: Seq<Seq<char>>)
    ensures
        forall|i: int|
            0 <= i < cleaned(values).len() ==> (#[trigger] cleaned(values)[i]).len() > 0
                && cleaned(values)[i] == trim_ws(cleaned(values)[i]),
        forall|i: int, j: int|
            0 <= i < j < cleaned(values).len() ==> lowercase_of(#[trigger] cleaned(values)[i])
                != lowercase_of(#[trigger] cleaned(values)[j]),
    decreases values.len(),
{
    if values.len() > 0 {
        lemma_cleaned_values_distinct(values.drop_last());
        let kept = cleaned(values.drop_last());
        let t = trim_ws(values.last());
        if !(t.len() == 0 || seen_lower(kept, t)) {
            crate::text::lemma_trim_start_is_suffix(values.last());
            assert(trim_ws(t) == t) by {
                lemma_trim_idempotent(values.last());
            }
            let c = cleaned(values);
            assert(c == kept.push(t));
            assert forall|i: int, j: int| 0 <= i < j < c.len() implies lowercase_of(
                #[trigger] c[i],
            ) != lowercase_of(#[trigger] c[j]) by {
                if j == c.len() - 1 {
                    assert(c[i] == kept[i]);
                    if lowercase_of(kept[i]) == lowercase_of(t) {
                        assert(seen_lower(kept, t));
                    }
                } else {
                    assert(c[i] == kept[i] && c[j] == kept[j]);
                }
            }
            assert forall|i: int| 0 <= i < c.len() implies (#[trigger] c[i]).len() > 0 && c[i]
                == trim_ws(c[i]) by {
                if i < c.len() - 1 {
                    assert(c[i] == kept[i]);
                }
            }
        }
    }
}

/// Cleaning loses no value and makes none up: every input value that is
/// not empty once trimmed is kept, or one equal to it once lower-cased is,
/// and every kept value is one of the inputs, trimmed.
pub proof fn lemma_cleaned_values_complete(values: Seq<Seq<char>>)
    ensures
        forall|k: int|
            0 <= k < values.len() && trim_ws(#[trigger] values[k]).len() > 0 ==> seen_lower(
                cleaned(values),
                trim_ws(values[k]),
            ),
        forall|j: int|
            0 <= j < cleaned(values).len() ==> exists|k: int|
                0 <= k < values.len() && #[trigger] cleaned(values)[j] == trim_ws(values[k]),
    decreases values.len(),
{
    if values.len() > 0 {
        let prev = values.drop_last();
        lemma_cleaned_values_complete(prev);
        let kept = cleaned(prev);
        let t = trim_ws(values.last());
        let c = cleaned(values);
        assert forall|i: int| 0 <= i < kept.len() implies c[i] == kept[i] by {}
        assert forall|k: int|
            0 <= k < values.len() && trim_ws(#[trigger] values[k]).len() > 0 implies seen_lower(
                c,
                trim_ws(values[k]),
            ) by {
            if k < values.len() - 1 {
                assert(prev[k] == values[k]);
                assert(seen_lower(kept, trim_ws(prev[k])));
                let j = choose|j: int|
                    0 <= j < kept.len() && lowercase_of(#[trigger] kept[j]) == lowercase_of(
                        trim_ws(prev[k]),
                    );
                assert(lowercase_of(c[j]) == lowercase_of(trim_ws(values[k])));
            } else if seen_lower(kept, t) {
                let j = choose|j: int|
                    0 <= j < kept.len() && lowercase_of(#[trigger] kept[j]) == lowercase_of(t);
                assert(lowercase_of(c[j]) == lowercase_of(t));
            } else {
                assert(c[kept.len() as int] == t);
                assert(lowercase_of(c[kept.len() as int]) == lowercase_of(t));
            }
        }
        assert forall|j: int| 0 <= j < c.len() implies exists|k: int|
            0 <= k < values.len() && #[trigger] c[j] == trim_ws(values[k]) by {
            if j < kept.len() {
                let k = choose|k: int| 0 <= k < prev.len() && #[trigger] kept[j] == trim_ws(prev[k]);
                assert(prev[k] == values[k]);
                assert(c[j] == trim_ws(values[k]));
            } else {
                assert(c[j] == trim_ws(values[values.len() - 1]));
            }
        }
    }
}

/// Trimming trimmed text changes nothing.
proof fn lemma_trim_idempotent(s: Seq<char>)
    ensures
        trim_ws(trim_ws(s)) == trim_ws(s),
{
    crate::text::lemma_trim_twice(s);
}

/// How Calibre stores an author name: commas become `|`.
pub open spec fn stored_author_spec(name: Seq<char>) -> Seq<char> {
    name.map_values(|c: char| if c == ',' { '|' } else { c })
}

/// The name an author is stored under: commas become `|`, as Calibre
/// stores them.
pub fn stored_author_name(name: &str) -> (r: String)
    ensures
        r@ == stored_author_spec(name@),
{
    let s = chars_of(name);
    let mut out: Vec<char> = Vec::new();
    let mut i: usize = 0;
    while i < s.len()
        invariant
            i <= s.len(),
            out@ == s@.take(i as int).map_values(|c: char| if c == ',' { '|' } else { c }),
        decreases s.len() - i,
    {
        out.push(if s[i] == ',' { '|' } else { s[i] });
        i = i + 1;
        assert(s@.take(i as int).map_values(|c: char| if c == ',' { '|' } else { c }) =~= s@.take(
            i - 1,
        ).map_values(|c: char| if c == ',' { '|' } else { c }).push(
            if s@[i - 1] == ',' { '|' } else { s@[i - 1] },
        ));
    }
    assert(s@.take(s.len() as int) =~= s@);
    string_of(&out)
}

/// The identifier rows a book is stored with: schemes trimmed and in ASCII
/// lower case, values trimmed, pairs with an empty side dropped.
pub open spec fn identifier_rows_spec(ids: Seq<Identifier>) -> Seq<(Seq<char>, Seq<char>)>
    decreases ids.len(),
{
    if ids.len() == 0 {
        Seq::empty()
    } else {
        let prev = identifier_rows_spec(ids.drop_last());
        let kind = trim_ws(ids.last().kind@).map_values(|c: char| crate::paths::ascii_lower(c));
        let value = trim_ws(ids.last().value@);
        if kind.len() == 0 || value.len() == 0 {
            prev
        } else {
            prev.push((kind, value))
        }
    }
}

/// The rows of one identifier: its scheme trimmed and in ASCII lower case
/// with its value trimmed, when neither is empty after trimming; else no
/// row at all.
pub proof fn lemma_identifier_row_of_one(x: Identifier)
    ensures
        identifier_rows_spec(seq![x]) == (if trim_ws(x.kind@).len() > 0 && trim_ws(x.value@).len()
            > 0 {
            seq![
                (
                    trim_ws(x.kind@).map_values(|c: char| crate::paths::ascii_lower(c)),
                    trim_ws(x.value@),
                ),
            ]
        } else {
            Seq::empty()
        }),
{
    let ids = seq![x];
    assert(ids.drop_last() =~= Seq::<Identifier>::empty());
    assert(ids.last() == x);
    assert(identifier_rows_spec(Seq::<Identifier>::empty()) == Seq::<(Seq<char>, Seq<char>)>::empty());
    let kind = trim_ws(x.kind@).map_values(|c: char| crate::paths::ascii_lower(c));
    assert(kind.len() == trim_ws(x.kind@).len());
    assert(Seq::<(Seq<char>, Seq<char>)>::empty().push((kind, trim_ws(x.value@))) =~= seq![
        (kind, trim_ws(x.value@)),
    ]);
}

/// The rows of two runs of identifiers one after the other are the rows of
/// the first run followed by those of the second: every identifier yields
/// its own rows, whatever stands before or after it.
pub proof fn lemma_identifier_rows_append(a: Seq<Identifier>, b: Seq<Identifier>)
    ensures
        identifier_rows_spec(a + b) == identifier_rows_spec(a) + identifier_rows_spec(b),
    decreases b.len(),
{
    if b.len() == 0 {
        assert(a + b =~= a);
        assert(identifier_rows_spec(a) + identifier_rows_spec(b) =~= identifier_rows_spec(a));
    } else {
        lemma_identifier_rows_append(a, b.drop_last());
        assert((a + b).drop_last() =~= a + b.drop_last());
        assert((a + b).last() == b.last());
        let ra = identifier_rows_spec(a);
        let rb = identifier_rows_spec(b.drop_last());
        let kind = trim_ws(b.last().kind@).map_values(|c: char| crate::paths::ascii_lower(c));
        let value = trim_ws(b.last().value@);
        assert((ra + rb).push((kind, value)) =~= ra + rb.push((kind, value)));
    }
}

/// Prepares identifier rows (see [`identifier_rows_spec`]).
pub fn identifier_rows(ids: &Vec<Identifier>) -> (r: Vec<Identifier>)
    ensures
        r@.map_values(|i: Identifier| (i.kind@, i.value@)) == identifier_rows_spec(ids@),
{
    let mut out: Vec<Identifier> = Vec::new();
    let mut i: usize = 0;
    while i < ids.len()
        invariant
            i <= ids@.len(),
            out@.map_values(|i: Identifier| (i.kind@, i.value@)) == identifier_rows_spec(
                ids@.take(i as int),
            ),
        decreases ids@.len() - i,
    {
        let kind = crate::paths::to_ascii_lower(&trim(&chars_of(ids[i].kind.as_str())));
        let value = trim(&chars_of(ids[i].value.as_str()));
        assert(ids@.take(i + 1).drop_last() =~= ids@.take(i as int));
        assert(ids@.take(i + 1).last() == ids@[i as int]);
        if kind.len() > 0 && value.len() > 0 {
            let ghost before = out@.map_values(|i: Identifier| (i.kind@, i.value@));
            out.push(Identifier { kind: string_of(&kind), value: string_of(&value) });
            assert(out@.map_values(|i: Identifier| (i.kind@, i.value@)) =~= before.push(
                (kind@, value@),
            ));
        }
        i = i + 1;
    }
    assert(ids@.take(ids@.len() as int) =~= ids@);
    out
}

} // verus!
