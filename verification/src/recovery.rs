use crate::error::{invalid_library, Error};
use crate::ids::BookId;
use crate::paths::{valid_relative, validate_relative};
use crate::text::{
    append_chars, append_str, chars_eq, chars_of, decimal, decimal_chars, lemma_lines_cons,
    lines_of, parse_i64, parse_int, split_lines, strip_cr, string_of,
};
use vstd::prelude::*;
use vstd::utf8::{decode_utf8, encode_utf8, valid_utf8};

verus! {

/// The largest recovery journal read, in bytes.
pub const MAX_JOURNAL_BYTES: u64 = 1024 * 1024;

/// The directory, relative to the library root, that holds recovery
/// journals.
pub open spec fn recovery_directory_spec() -> Seq<char> {
    ".calibre-rs/recovery"@
}

/// The directory that holds recovery journals (see
/// [`recovery_directory_spec`]).
pub fn recovery_directory() -> (r: String)
    ensures
        r@ == recovery_directory_spec(),
{
    proof {
        reveal_strlit(".calibre-rs/recovery");
    }
    ".calibre-rs/recovery".to_owned()
}

/// The first line of a version-1 recovery journal.
pub open spec fn v1_magic() -> Seq<char> {
    "calibre-rs-recovery-v1"@
}

/// A recoverable multi-step operation.
#[derive(Clone, Copy, Debug, PartialEq, Eq, Structural)]
pub enum RecoveryOperation {
    /// Creation of a book directory and database row.
    BookAdd,
    /// Permanent removal of a book directory and database row.
    PermanentBookRemoval,
    /// Addition, replacement, or removal of a format.
    FormatChange,
    /// Addition, replacement, or removal of a cover.
    CoverChange,
    /// A book-directory and format-filename move.
    BookMove,
    /// A book or format moving into or out of Calibre's trash.
    TrashChange,
}

/// The version-1 journal name of an operation that version 1 records.
pub open spec fn v1_name_spec(op: RecoveryOperation) -> Seq<char> {
    if op == RecoveryOperation::BookAdd {
        "book-add"@
    } else {
        "book-remove"@
    }
}

/// The operation a version-1 journal name denotes.
pub open spec fn parse_v1_name_spec(name: Seq<char>) -> Option<RecoveryOperation> {
    if name == "book-add"@ {
        Some(RecoveryOperation::BookAdd)
    } else if name == "book-remove"@ {
        Some(RecoveryOperation::PermanentBookRemoval)
    } else {
        None
    }
}

impl RecoveryOperation {
    /// The version-1 journal name of a book addition or permanent removal.
    pub fn v1_name(self) -> (r: &'static str)
        requires
            self == RecoveryOperation::BookAdd || self == RecoveryOperation::PermanentBookRemoval,
        ensures
            r@ == v1_name_spec(self),
    {
        match self {
            RecoveryOperation::BookAdd => "book-add",
            _ => "book-remove",
        }
    }

    /// The operation that a version-1 journal name denotes.
    pub fn parse_v1(value: &str) -> (r: Option<Self>)
        ensures
            r == parse_v1_name_spec(value@),
    {
        let s = chars_of(value);
        if crate::text::chars_eq(&s, &chars_of("book-add")) {
            Some(RecoveryOperation::BookAdd)
        } else if crate::text::chars_eq(&s, &chars_of("book-remove")) {
            Some(RecoveryOperation::PermanentBookRemoval)
        } else {
            None
        }
    }
}

/// One durable recovery record left by an interrupted write.
#[derive(Clone, Debug, PartialEq, Eq)]
pub struct RecoveryEntry {
    /// Opaque journal identifier.
    pub journal_id: String,
    /// Interrupted operation.
    pub operation: RecoveryOperation,
    /// Related book.
    pub book_id: BookId,
    /// Primary path relative to the library root.
    pub relative_path: String,
}

/// Outcome of resolving pending recovery records.
#[derive(Clone, Copy, Debug, PartialEq, Eq)]
pub struct RecoveryReport {
    /// Records resolved and durably removed.
    pub resolved: u64,
}

// ---------------------------------------------------------------------------
// Hexadecimal path encoding
// ---------------------------------------------------------------------------
/// The lower-case hexadecimal digit for `v` (below 16).
pub open spec fn hex_digit(v: nat) -> char {
    if v < 10 {
        crate::text::digit_char(v)
    } else if v == 10 {
        'a'
    } else if v == 11 {
        'b'
    } else if v == 12 {
        'c'
    } else if v == 13 {
        'd'
    } else if v == 14 {
        'e'
    } else {
        'f'
    }
}

/// Two lower-case hexadecimal digits per byte, high nibble first.
pub open spec fn hex_encode(bytes: Seq<u8>) -> Seq<char>
    decreases bytes.len(),
{
    if bytes.len() == 0 {
        Seq::empty()
    } else {
        hex_encode(bytes.drop_last()) + seq![
            hex_digit((bytes.last() / 16) as nat),
            hex_digit((bytes.last() % 16) as nat),
        ]
    }
}

/// The value of a hexadecimal digit of either case.
pub open spec fn nibble(c: char) -> Option<u8> {
    if '0' <= c <= '9' {
        Some(((c as u32) - ('0' as u32)) as u8)
    } else if 'a' <= c <= 'f' {
        Some(((c as u32) - ('a' as u32) + 10) as u8)
    } else if 'A' <= c <= 'F' {
        Some(((c as u32) - ('A' as u32) + 10) as u8)
    } else {
        None
    }
}

/// The bytes that an even-length run of hexadecimal digits encodes.
pub open spec fn hex_decode(s: Seq<char>) -> Option<Seq<u8>>
    decreases s.len(),
{
    if s.len() % 2 != 0 {
        None
    } else if s.len() == 0 {
        Some(Seq::empty())
    } else {
        match (hex_decode(s.take(s.len() - 2)), nibble(s[s.len() - 2]), nibble(s[s.len() - 1])) {
            (Some(prefix), Some(high), Some(low)) => Some(prefix.push((high * 16 + low) as u8)),
            _ => None,
        }
    }
}

fn hex_char(v: u8) -> (c: char)
    requires
        v < 16,
    ensures
        c == hex_digit(v as nat),
{
    if v < 10 {
        crate::text::digit_of(v)
    } else if v == 10 {
        'a'
    } else if v == 11 {
        'b'
    } else if v == 12 {
        'c'
    } else if v == 13 {
        'd'
    } else if v == 14 {
        'e'
    } else {
        'f'
    }
}

/// The value of a hexadecimal digit of either case.
pub fn hex_nibble(c: char) -> (r: Option<u8>)
    ensures
        r == nibble(c),
{
    if '0' <= c && c <= '9' {
        Some(((c as u32) - ('0' as u32)) as u8)
    } else if 'a' <= c && c <= 'f' {
        Some(((c as u32) - ('a' as u32) + 10) as u8)
    } else if 'A' <= c && c <= 'F' {
        Some(((c as u32) - ('A' as u32) + 10) as u8)
    } else {
        None
    }
}

/// Encodes bytes as lower-case hexadecimal text.
pub fn encode_hex(bytes: &[u8]) -> (r: Vec<char>)
    ensures
        r@ == hex_encode(bytes@),
{
    let mut out: Vec<char> = Vec::new();
    let mut i: usize = 0;
    while i < bytes.len()
        invariant
            i <= bytes.len(),
            out@ == hex_encode(bytes@.take(i as int)),
        decreases bytes.len() - i,
    {
        let b = bytes[i];
        out.push(hex_char(b / 16));
        out.push(hex_char(b % 16));
        i = i + 1;
        assert(bytes@.take(i as int).drop_last() =~= bytes@.take(i - 1));
        assert(out@ =~= hex_encode(bytes@.take(i as int)));
    }
    assert(bytes@.take(bytes.len() as int) =~= bytes@);
    out
}

/// Decodes hexadecimal text of either case; `None` for an odd length or a
/// character that is not a hexadecimal digit.
pub fn decode_hex(s: &Vec<char>) -> (r: Option<Vec<u8>>)
    ensures
        r matches Some(bytes) ==> hex_decode(s@) == Some(bytes@),
        r is None ==> hex_decode(s@) is None,
{
    if s.len() % 2 != 0 {
        return None;
    }
    let mut out: Vec<u8> = Vec::new();
    let mut i: usize = 0;
    while i < s.len()
        invariant
            s.len() % 2 == 0,
            i <= s.len(),
            i % 2 == 0,
            hex_decode(s@.take(i as int)) == Some(out@),
        decreases s.len() - i,
    {
        let high = hex_nibble(s[i]);
        let low = hex_nibble(s[i + 1]);
        let ghost t = s@.take((i + 2) as int);
        assert(t.take(t.len() - 2) =~= s@.take(i as int));
        match (high, low) {
            (Some(h), Some(l)) => {
                out.push((h * 16 + l) as u8);
            },
            _ => {
                proof {
                    lemma_hex_decode_none_extends(s@, (i + 2) as int);
                }
                return None;
            },
        }
        i = i + 2;
    }
    assert(s@.take(s.len() as int) =~= s@);
    Some(out)
}

proof fn lemma_hex_decode_none_extends(s: Seq<char>, k: int)
    requires
        0 <= k <= s.len(),
        k % 2 == 0,
        s.len() % 2 == 0,
        hex_decode(s.take(k)) is None,
    ensures
        hex_decode(s) is None,
    decreases s.len(),
{
    if k == s.len() {
        assert(s.take(k) =~= s);
    } else {
        let p = s.take(s.len() - 2);
        assert(p.take(k) =~= s.take(k));
        lemma_hex_decode_none_extends(p, k);
    }
}

proof fn lemma_hex_digit_nibble(v: nat)
    requires
        v < 16,
    ensures
        nibble(hex_digit(v)) == Some(v as u8),
{
}

/// Decoding hexadecimal text gives back the bytes that were encoded.
pub proof fn lemma_hex_round_trip(bytes: Seq<u8>)
    ensures
        hex_decode(hex_encode(bytes)) == Some(bytes),
        hex_encode(bytes).len() == 2 * bytes.len(),
    decreases bytes.len(),
{
    if bytes.len() > 0 {
        let d = bytes.drop_last();
        lemma_hex_round_trip(d);
        let e = hex_encode(bytes);
        let b = bytes.last();
        lemma_hex_digit_nibble((b / 16) as nat);
        lemma_hex_digit_nibble((b % 16) as nat);
        assert(e.take(e.len() - 2) =~= hex_encode(d));
        assert(((b / 16) * 16 + b % 16) as u8 == b);
        assert(d.push(b) =~= bytes);
    }
}

/// Calls std's `String::from_utf8`. std documents that the conversion
/// succeeds exactly for valid UTF-8 and keeps the bytes; vstd's
/// `valid_utf8` and `encode_utf8` state validity and encoding.
#[verifier::external_body]
fn string_from_utf8(bytes: Vec<u8>) -> (r: Option<String>)
    ensures
        r is Some <==> valid_utf8(bytes@),
        r matches Some(s) ==> encode_utf8(s@) == bytes@,
{
    String::from_utf8(bytes).ok()
}

/// The journal text of a relative path: its UTF-8 bytes in hexadecimal.
pub open spec fn encode_path_spec(path: Seq<char>) -> Seq<char> {
    hex_encode(encode_utf8(path))
}

/// Encodes a relative path for a journal: its UTF-8 bytes in hexadecimal.
pub fn encode_path(path: &str) -> (r: String)
    ensures
        r@ == encode_path_spec(path@),
{
    string_of(&encode_hex(path.as_bytes()))
}

/// What [`decode_path`] accepts: hexadecimal text of UTF-8 bytes that spell
/// a relative path of normal components.
pub open spec fn decodes_to_relative(value: Seq<char>) -> bool {
    hex_decode(value) matches Some(bytes) && valid_utf8(bytes) && valid_relative(
        decode_utf8(bytes),
    )
}

/// The path a journal's hexadecimal text spells, when it decodes.
pub open spec fn decoded_path(value: Seq<char>) -> Seq<char> {
    decode_utf8(hex_decode(value).unwrap())
}

/// Decodes a journal path and checks that it is a relative path of normal
/// components.
///
/// Returns [`Error::InvalidLibrary`] (naming `journal`) for text that is not
/// hexadecimal UTF-8, and [`Error::PathEscape`] for a path that is not
/// relative.
pub fn decode_path(value: &str, journal: &str) -> (r: Result<String, Error>)
    ensures
        r is Ok <==> decodes_to_relative(value@),
        r matches Ok(path) ==> hex_decode(value@) == Some(encode_utf8(path@)) && valid_relative(
            path@,
        ) && path@ == decoded_path(value@),
        r matches Err(e) ==> match hex_decode(value@) {
            Some(bytes) => if valid_utf8(bytes) {
                e matches Error::PathEscape { path, .. } && path@ == decode_utf8(bytes)
            } else {
                e matches Error::InvalidLibrary { path, .. } && path@ == journal@
            },
            None => e matches Error::InvalidLibrary { path, .. } && path@ == journal@,
        },
{
    let bytes = match decode_hex(&chars_of(value)) {
        Some(bytes) => bytes,
        None => return Err(invalid_library(journal, "invalid recovery path encoding")),
    };
    let ghost raw = bytes@;
    let path = match string_from_utf8(bytes) {
        Some(path) => path,
        None => return Err(invalid_library(journal, "recovery path is not valid platform text")),
    };
    proof {
        vstd::utf8::encode_utf8_decode_utf8(path@);
    }
    validate_relative(path.as_str())?;
    Ok(path)
}

/// A relative path written to a journal reads back as the same path.
pub proof fn lemma_path_encoding_round_trip(path: Seq<char>)
    requires
        valid_relative(path),
    ensures
        decodes_to_relative(encode_path_spec(path)),
        hex_decode(encode_path_spec(path)) == Some(encode_utf8(path)),
        decode_utf8(encode_utf8(path)) == path,
{
    lemma_hex_round_trip(encode_utf8(path));
    vstd::utf8::encode_utf8_valid_utf8(path);
    vstd::utf8::encode_utf8_decode_utf8(path);
}

// ---------------------------------------------------------------------------
// Book IDs in journals
// ---------------------------------------------------------------------------
/// A journal's book ID, which must be positive.
///
/// Returns [`Error::InvalidLibrary`] (naming `journal`) for zero or a
/// negative value.
pub fn positive_book_id(raw: i64, journal: &str) -> (r: Result<BookId, Error>)
    ensures
        r is Ok <==> raw > 0,
        r matches Ok(id) ==> id@ == raw,
        r matches Err(e) ==> e is InvalidLibrary,
{
    if raw <= 0 {
        Err(invalid_library(journal, "recovery book ID is not positive"))
    } else {
        Ok(BookId::new(raw))
    }
}

/// A journal's decimal book ID, which must be positive.
///
/// Returns [`Error::InvalidLibrary`] (naming `journal`) for text that is not
/// an `i64` or a value that is not positive.
pub fn parse_book_id(value: &str, journal: &str) -> (r: Result<BookId, Error>)
    ensures
        r is Ok <==> (parse_int(value@) matches Some(v) && v > 0),
        r matches Ok(id) ==> parse_int(value@) == Some(id@ as int),
        r matches Err(e) ==> e is InvalidLibrary,
{
    match parse_i64(value) {
        Some(raw) => positive_book_id(raw, journal),
        None => Err(invalid_library(journal, "invalid recovery book ID")),
    }
}

// ---------------------------------------------------------------------------
// Version-1 journals
// ---------------------------------------------------------------------------
/// The text of a version-1 journal: the magic line, the operation, the
/// book ID, the encoded relative path, and the encoded staged path or `-`,
/// one per line.
pub open spec fn v1_text(
    op: RecoveryOperation,
    book: int,
    relative: Seq<char>,
    staged: Option<Seq<char>>,
) -> Seq<char> {
    v1_magic() + seq!['\n'] + v1_name_spec(op) + seq!['\n'] + decimal(book) + seq!['\n']
        + encode_path_spec(relative) + seq!['\n'] + match staged {
        Some(p) => encode_path_spec(p),
        None => seq!['-'],
    } + seq!['\n']
}

/// Writes the text of a version-1 journal for a book addition (no staged
/// path) or a permanent removal (the staged directory).
///
/// Returns [`Error::PathEscape`] when a path is not relative.
pub fn v1_journal_text(
    op: RecoveryOperation,
    book: BookId,
    relative: &str,
    staged: Option<&str>,
) -> (r: Result<String, Error>)
    requires
        op == RecoveryOperation::BookAdd || op == RecoveryOperation::PermanentBookRemoval,
    ensures
        r is Ok <==> valid_relative(relative@) && (staged matches Some(p) ==> valid_relative(p@)),
        r matches Ok(text) ==> text@ == v1_text(
            op,
            book@ as int,
            relative@,
            match staged {
                Some(p) => Some(p@),
                None => None,
            },
        ),
        r matches Err(e) ==> e is PathEscape,
{
    validate_relative(relative)?;
    match staged {
        Some(p) => validate_relative(p)?,
        None => {},
    }
    let mut out = chars_of("calibre-rs-recovery-v1");
    proof {
        reveal_strlit("calibre-rs-recovery-v1");
    }
    out.push('\n');
    append_str(&mut out, op.v1_name());
    out.push('\n');
    let digits = decimal_chars(book.get());
    append_chars(&mut out, &digits);
    out.push('\n');
    let rel = encode_path(relative);
    append_str(&mut out, rel.as_str());
    out.push('\n');
    match staged {
        Some(p) => {
            let enc = encode_path(p);
            append_str(&mut out, enc.as_str());
        },
        None => {
            out.push('-');
        },
    }
    out.push('\n');
    assert(out@ =~= v1_text(
        op,
        book@ as int,
        relative@,
        match staged {
            Some(p) => Some(p@),
            None => None,
        },
    ));
    Ok(string_of(&out))
}

/// Whether journal bytes begin with the version-1 magic text.
pub fn is_v1_journal(contents: &[u8]) -> (r: bool)
    ensures
        r == encode_utf8(v1_magic()).is_prefix_of(contents@),
{
    let magic = "calibre-rs-recovery-v1".as_bytes();
    proof {
        reveal_strlit("calibre-rs-recovery-v1");
    }
    crate::text::starts_with_chars(contents, magic)
}

/// A parsed version-1 journal: its entry and, for a removal, the staged
/// directory.
#[derive(Clone, Debug)]
pub struct ParsedV1 {
    /// The pending entry.
    pub entry: RecoveryEntry,
    /// The staged directory of a removal.
    pub staged_path: Option<String>,
}

/// The lines of journal bytes, when they are UTF-8.
pub open spec fn v1_lines(contents: Seq<u8>) -> Seq<Seq<char>> {
    lines_of(decode_utf8(contents))
}

/// What [`parse_v1_journal`] accepts: five UTF-8 lines, the magic first,
/// then a known operation, a positive book ID, an encoded relative path
/// and, for a removal, an encoded staged path.
pub open spec fn v1_valid(contents: Seq<u8>) -> bool {
    let l = v1_lines(contents);
    &&& valid_utf8(contents)
    &&& l.len() == 5
    &&& l[0] == v1_magic()
    &&& parse_v1_name_spec(l[1]) is Some
    &&& (parse_int(l[2]) matches Some(v) && v > 0)
    &&& decodes_to_relative(l[3])
    &&& (parse_v1_name_spec(l[1]) == Some(RecoveryOperation::PermanentBookRemoval) ==> l[4]
        != seq!['-'] && decodes_to_relative(l[4]))
}

/// Parses a version-1 journal into its pending entry.
///
/// Returns [`Error::InvalidLibrary`] (naming `journal_path`) for text that
/// is not UTF-8 or not five lines under the magic line, an unknown
/// operation, a bad book ID or path encoding, or a removal without a staged
/// path; [`Error::PathEscape`] for a path that is not relative.
pub fn parse_v1_journal(contents: Vec<u8>, journal_id: &str, journal_path: &str) -> (r: Result<
    ParsedV1,
    Error,
>)
    ensures
        r is Ok <==> v1_valid(contents@),
        r matches Ok(p) ==> ({
            let l = v1_lines(contents@);
            &&& p.entry.journal_id@ == journal_id@
            &&& Some(p.entry.operation) == parse_v1_name_spec(l[1])
            &&& parse_int(l[2]) == Some(p.entry.book_id@ as int)
            &&& p.entry.relative_path@ == decoded_path(l[3])
            &&& if p.entry.operation == RecoveryOperation::PermanentBookRemoval {
                p.staged_path matches Some(s) && s@ == decoded_path(l[4])
            } else {
                p.staged_path is None
            }
        }),
        r matches Err(e) ==> e is InvalidLibrary || e is PathEscape,
{
    let ghost bytes = contents@;
    let text = match string_from_utf8(contents) {
        Some(text) => text,
        None => return Err(invalid_library(journal_path, "version-1 recovery journal is not UTF-8")),
    };
    proof {
        vstd::utf8::encode_utf8_decode_utf8(text@);
    }
    let lines = split_lines(text.as_str());
    let ghost l = lines@.map_values(|x: Vec<char>| x@);
    assert(l == v1_lines(bytes));
    if lines.len() != 5 {
        return Err(invalid_library(journal_path, "unsupported recovery journal encoding"));
    }
    assert(l[0] == lines@[0]@ && l[1] == lines@[1]@ && l[2] == lines@[2]@ && l[3] == lines@[3]@
        && l[4] == lines@[4]@);
    let magic = chars_of("calibre-rs-recovery-v1");
    proof {
        reveal_strlit("calibre-rs-recovery-v1");
    }
    if !chars_eq(&lines[0], &magic) {
        return Err(invalid_library(journal_path, "unsupported recovery journal encoding"));
    }
    let op_text = string_of(&lines[1]);
    let operation = match RecoveryOperation::parse_v1(op_text.as_str()) {
        Some(op) => op,
        None => return Err(invalid_library(journal_path, "unknown recovery operation")),
    };
    let id_text = string_of(&lines[2]);
    let book_id = parse_book_id(id_text.as_str(), journal_path)?;
    let rel_text = string_of(&lines[3]);
    let relative_path = decode_path(rel_text.as_str(), journal_path)?;
    let staged_path = match operation {
        RecoveryOperation::PermanentBookRemoval => {
            if lines[4].len() == 1 && lines[4][0] == '-' {
                assert(lines@[4]@ =~= seq!['-']);
                return Err(invalid_library(journal_path, "book-removal journal has no staged path"));
            }
            assert(lines@[4]@ != seq!['-']);
            let staged_text = string_of(&lines[4]);
            Some(decode_path(staged_text.as_str(), journal_path)?)
        },
        _ => None,
    };
    Ok(
        ParsedV1 {
            entry: RecoveryEntry {
                journal_id: journal_id.to_owned(),
                operation,
                book_id,
                relative_path,
            },
            staged_path,
        },
    )
}

/// A run of text with no line break in it.
pub open spec fn no_line_break(s: Seq<char>) -> bool {
    forall|j: int| 0 <= j < s.len() ==> s[j] != '\n' && s[j] != '\r'
}

proof fn lemma_decimal_no_break(i: int)
    ensures
        no_line_break(decimal(i)),
{
    if i < 0 {
        crate::text::lemma_dec_digits((-i) as nat);
        let d = decimal(i);
        assert forall|j: int| 0 <= j < d.len() implies d[j] != '\n' && d[j] != '\r' by {
            if j > 0 {
                assert(d[j] == crate::text::dec_digits((-i) as nat)[j - 1]);
            }
        }
    } else {
        crate::text::lemma_dec_digits(i as nat);
    }
}

proof fn lemma_hex_no_break(bytes: Seq<u8>)
    ensures
        no_line_break(hex_encode(bytes)),
        forall|j: int| 0 <= j < hex_encode(bytes).len() ==> #[trigger] hex_encode(bytes)[j] != '-',
    decreases bytes.len(),
{
    if bytes.len() > 0 {
        lemma_hex_no_break(bytes.drop_last());
    }
}

proof fn lemma_strip_plain(s: Seq<char>)
    requires
        no_line_break(s),
    ensures
        strip_cr(s) == s,
{
    if s.len() > 0 {
        assert(s[s.len() - 1] != '\r');
    }
}

proof fn lemma_line_then(line: Seq<char>, rest: Seq<char>)
    requires
        no_line_break(line),
    ensures
        lines_of(line + seq!['\n'] + rest) == seq![line] + lines_of(rest),
{
    lemma_strip_plain(line);
    assert forall|j: int| 0 <= j < line.len() implies line[j] != '\n' by {}
    lemma_lines_cons(line, rest);
}

proof fn lemma_five_lines(
    a: Seq<char>,
    b: Seq<char>,
    c: Seq<char>,
    d: Seq<char>,
    e: Seq<char>,
)
    requires
        no_line_break(a),
        no_line_break(b),
        no_line_break(c),
        no_line_break(d),
        no_line_break(e),
    ensures
        lines_of(a + seq!['\n'] + b + seq!['\n'] + c + seq!['\n'] + d + seq!['\n'] + e + seq![
            '\n',
        ]) == seq![a, b, c, d, e],
{
    let nl = seq!['\n'];
    let z = Seq::<char>::empty();
    let t4 = e + nl + z;
    let t3 = d + nl + t4;
    let t2 = c + nl + t3;
    let t1 = b + nl + t2;
    let t0 = a + nl + t1;
    assert(lines_of(z) =~= Seq::<Seq<char>>::empty());
    lemma_line_then(e, z);
    lemma_line_then(d, t4);
    lemma_line_then(c, t3);
    lemma_line_then(b, t2);
    lemma_line_then(a, t1);
    assert(lines_of(t0) =~= seq![a, b, c, d, e]);
    assert(t0 =~= a + nl + b + nl + c + nl + d + nl + e + nl);
}

proof fn lemma_encoded_path_line(p: Seq<char>)
    requires
        valid_relative(p),
    ensures
        no_line_break(encode_path_spec(p)),
        encode_path_spec(p) != seq!['-'],
        decodes_to_relative(encode_path_spec(p)),
        decoded_path(encode_path_spec(p)) == p,
{
    lemma_hex_no_break(encode_utf8(p));
    lemma_path_encoding_round_trip(p);
    let e = encode_path_spec(p);
    if e =~= seq!['-'] {
        assert(e[0] == '-');
    }
}

/// A version-1 journal that the writer produced reads back as the entry it
/// records: the operation, the book, the relative path and, for a removal,
/// the staged path.
pub proof fn lemma_v1_round_trip(
    op: RecoveryOperation,
    book: i64,
    relative: Seq<char>,
    staged: Option<Seq<char>>,
)
    requires
        op == RecoveryOperation::BookAdd || op == RecoveryOperation::PermanentBookRemoval,
        book > 0,
        valid_relative(relative),
        op == RecoveryOperation::PermanentBookRemoval ==> staged is Some,
        staged matches Some(p) ==> valid_relative(p),
    ensures
        v1_valid(encode_utf8(v1_text(op, book as int, relative, staged))),
        parse_v1_name_spec(v1_lines(encode_utf8(v1_text(op, book as int, relative, staged)))[1])
            == Some(op),
        parse_int(v1_lines(encode_utf8(v1_text(op, book as int, relative, staged)))[2]) == Some(
            book as int,
        ),
        decoded_path(v1_lines(encode_utf8(v1_text(op, book as int, relative, staged)))[3])
            == relative,
        staged matches Some(p) ==> decoded_path(
            v1_lines(encode_utf8(v1_text(op, book as int, relative, staged)))[4],
        ) == p,
{
    let text = v1_text(op, book as int, relative, staged);
    vstd::utf8::encode_utf8_valid_utf8(text);
    vstd::utf8::encode_utf8_decode_utf8(text);
    let magic = v1_magic();
    let name = v1_name_spec(op);
    let id = decimal(book as int);
    let rel = encode_path_spec(relative);
    let last = match staged {
        Some(p) => encode_path_spec(p),
        None => seq!['-'],
    };
    assert(no_line_break(magic) && no_line_break(name)) by {
        reveal_strlit("calibre-rs-recovery-v1");
        reveal_strlit("book-add");
        reveal_strlit("book-remove");
    }
    assert(parse_v1_name_spec(name) == Some(op)) by {
        reveal_strlit("book-add");
        reveal_strlit("book-remove");
    }
    lemma_decimal_no_break(book as int);
    crate::text::lemma_parse_decimal_round_trip(book);
    lemma_encoded_path_line(relative);
    match staged {
        Some(p) => {
            lemma_encoded_path_line(p);
        },
        None => {},
    }
    assert(text =~= magic + seq!['\n'] + name + seq!['\n'] + id + seq!['\n'] + rel + seq!['\n']
        + last + seq!['\n']);
    lemma_five_lines(magic, name, id, rel, last);
}

} // verus!
