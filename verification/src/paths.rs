use crate::error::{invalid_input, path_escape, Error};
use crate::text::{
    trim_start_ws,
    append_chars, append_str, chars_of, decimal, decimal_chars, is_whitespace, is_ws, string_of,
    trim, trim_end_ws, trim_ws,
};
use unicode_normalization::UnicodeNormalization;
use vstd::prelude::*;

verus! {

// ---------------------------------------------------------------------------
// Relative paths
// ---------------------------------------------------------------------------
/// A `..` component starts at position `i` of `s`.
pub open spec fn parent_component_at(s: Seq<char>, i: int) -> bool {
    &&& 0 <= i
    &&& i + 1 < s.len()
    &&& (i == 0 || s[i - 1] == '/')
    &&& s[i] == '.'
    &&& s[i + 1] == '.'
    &&& (i + 2 == s.len() || s[i + 2] == '/')
}

/// A relative path made of normal components only: it is not empty, does not
/// start at the root or with `.`, and no component is `..`.
pub open spec fn valid_relative(s: Seq<char>) -> bool {
    &&& s.len() > 0
    &&& s[0] != '/'
    &&& !(s[0] == '.' && (s.len() == 1 || s[1] == '/'))
    &&& forall|i: int| !#[trigger] parent_component_at(s, i)
}

/// Checks that a path has only normal relative components.
///
/// Returns [`Error::PathEscape`] for an empty path, a rooted path, a leading
/// `.` component or any `..` component.
pub fn validate_relative(path: &str) -> (r: Result<(), Error>)
    ensures
        r is Ok <==> valid_relative(path@),
        r matches Err(e) ==> e matches Error::PathEscape { path: p, .. } && p@ == path@,
{
    let s = chars_of(path);
    if s.len() == 0 {
        return Err(path_escape(path, "empty path"));
    }
    if s[0] == '/' || (s[0] == '.' && (s.len() == 1 || s[1] == '/')) {
        return Err(path_escape(path, "only normal relative path components are allowed"));
    }
    let mut i: usize = 0;
    while i < s.len()
        invariant
            s@ == path@,
            i <= s.len(),
            forall|j: int| 0 <= j < i ==> !parent_component_at(s@, j),
        decreases s.len() - i,
    {
        if i + 1 < s.len() && (i == 0 || s[i - 1] == '/') && s[i] == '.' && s[i + 1] == '.' && (
        i + 2 == s.len() || s[i + 2] == '/') {
            assert(parent_component_at(s@, i as int));
            return Err(path_escape(path, "only normal relative path components are allowed"));
        }
        i = i + 1;
    }
    assert forall|j: int| !parent_component_at(s@, j) by {
        if 0 <= j < s.len() {
        } else {
        }
    }
    Ok(())
}

/// A component (a maximal run without `/` that is not `.`) starts at `i`.
pub open spec fn component_starts_at(s: Seq<char>, i: int) -> bool {
    &&& 0 <= i < s.len()
    &&& s[i] != '/'
    &&& (i == 0 || s[i - 1] == '/')
    &&& !(s[i] == '.' && (i + 1 == s.len() || s[i + 1] == '/'))
}

/// The number of components of `s` from position `i` on.
pub open spec fn components_from(s: Seq<char>, i: int) -> nat
    decreases s.len() - i,
{
    if i < 0 || i >= s.len() {
        0
    } else if component_starts_at(s, i) {
        1 + components_from(s, i + 1)
    } else {
        components_from(s, i + 1)
    }
}

/// A single normal path component (a file name).
pub open spec fn valid_filename(s: Seq<char>) -> bool {
    valid_relative(s) && components_from(s, 0) == 1
}

/// Checks that a path is exactly one normal component.
pub fn validate_filename(path: &str) -> (r: Result<(), Error>)
    ensures
        r is Ok <==> valid_filename(path@),
        r matches Err(e) ==> e is PathEscape,
{
    validate_relative(path)?;
    let s = chars_of(path);
    let mut count: usize = 0;
    let mut i: usize = s.len();
    while i > 0
        invariant
            s@ == path@,
            i <= s.len(),
            count <= s.len() - i,
            count == components_from(s@, i as int),
        decreases i,
    {
        i = i - 1;
        let starts = s[i] != '/' && (i == 0 || s[i - 1] == '/') && !(s[i] == '.' && (i + 1
            == s.len() || s[i + 1] == '/'));
        if starts {
            count = count + 1;
        }
    }
    if count != 1 {
        return Err(path_escape(path, "recovery filename must contain one path component"));
    }
    Ok(())
}

/// `root` joined with a relative path.
pub open spec fn join_spec(root: Seq<char>, relative: Seq<char>) -> Seq<char> {
    root + seq!['/'] + relative
}

/// Joins a directory and a relative path with a separator.
pub fn join(root: &str, relative: &str) -> (r: String)
    ensures
        r@ == join_spec(root@, relative@),
{
    let mut out = chars_of(root);
    out.push('/');
    append_str(&mut out, relative);
    string_of(&out)
}

// ---------------------------------------------------------------------------
// Format names
// ---------------------------------------------------------------------------
/// An ASCII letter or digit.
pub open spec fn is_ascii_alnum(c: char) -> bool {
    ('0' <= c <= '9') || ('a' <= c <= 'z') || ('A' <= c <= 'Z')
}

/// The ASCII upper-case form of a character.
pub open spec fn ascii_upper(c: char) -> char {
    if 'a' <= c <= 'z' {
        ((c as u32) - 32) as char
    } else {
        c
    }
}

/// The ASCII lower-case form of a character.
pub open spec fn ascii_lower(c: char) -> char {
    if 'A' <= c <= 'Z' {
        ((c as u32) + 32) as char
    } else {
        c
    }
}

/// A valid logical format: 1 to 16 ASCII letters or digits.
pub open spec fn valid_format(s: Seq<char>) -> bool {
    1 <= s.len() <= 16 && forall|i: int| 0 <= i < s.len() ==> is_ascii_alnum(#[trigger] s[i])
}

/// Upper-cases ASCII letters.
pub fn to_ascii_upper(s: &Vec<char>) -> (r: Vec<char>)
    ensures
        r@ == s@.map_values(|c: char| ascii_upper(c)),
{
    let mut out: Vec<char> = Vec::new();
    let mut i: usize = 0;
    while i < s.len()
        invariant
            i <= s.len(),
            out@ == s@.take(i as int).map_values(|c: char| ascii_upper(c)),
        decreases s.len() - i,
    {
        let c = s[i];
        let u = if 'a' <= c && c <= 'z' {
            upper_of(c)
        } else {
            c
        };
        out.push(u);
        i = i + 1;
        assert(s@.take(i as int).map_values(|c: char| ascii_upper(c)) =~= s@.take(i - 1).map_values(
            |c: char| ascii_upper(c),
        ).push(ascii_upper(s@[i - 1])));
    }
    assert(s@.take(s.len() as int) =~= s@);
    out
}

/// Lower-cases ASCII letters.
pub fn to_ascii_lower(s: &Vec<char>) -> (r: Vec<char>)
    ensures
        r@ == s@.map_values(|c: char| ascii_lower(c)),
{
    let mut out: Vec<char> = Vec::new();
    let mut i: usize = 0;
    while i < s.len()
        invariant
            i <= s.len(),
            out@ == s@.take(i as int).map_values(|c: char| ascii_lower(c)),
        decreases s.len() - i,
    {
        let c = s[i];
        let l = if 'A' <= c && c <= 'Z' {
            lower_of(c)
        } else {
            c
        };
        out.push(l);
        i = i + 1;
        assert(s@.take(i as int).map_values(|c: char| ascii_lower(c)) =~= s@.take(i - 1).map_values(
            |c: char| ascii_lower(c),
        ).push(ascii_lower(s@[i - 1])));
    }
    assert(s@.take(s.len() as int) =~= s@);
    out
}

fn upper_of(c: char) -> (r: char)
    requires
        'a' <= c <= 'z',
    ensures
        r == ascii_upper(c),
{
    let u = (c as u32) - 32;
    let table: [char; 26] = [
        'A', 'B', 'C', 'D', 'E', 'F', 'G', 'H', 'I', 'J', 'K', 'L', 'M',
        'N', 'O', 'P', 'Q', 'R', 'S', 'T', 'U', 'V', 'W', 'X', 'Y', 'Z',
    ];
    let r = table[(u - 65) as usize];
    assert(r as u32 == u) by {
        assert(table@ =~= seq![
            'A', 'B', 'C', 'D', 'E', 'F', 'G', 'H', 'I', 'J', 'K', 'L', 'M',
            'N', 'O', 'P', 'Q', 'R', 'S', 'T', 'U', 'V', 'W', 'X', 'Y', 'Z',
        ]);
    }
    proof {
        vstd::utf8::char_u32_cast(r, u);
    }
    r
}

fn lower_of(c: char) -> (r: char)
    requires
        'A' <= c <= 'Z',
    ensures
        r == ascii_lower(c),
{
    let u = (c as u32) + 32;
    let table: [char; 26] = [
        'a', 'b', 'c', 'd', 'e', 'f', 'g', 'h', 'i', 'j', 'k', 'l', 'm',
        'n', 'o', 'p', 'q', 'r', 's', 't', 'u', 'v', 'w', 'x', 'y', 'z',
    ];
    let r = table[(u - 97) as usize];
    assert(r as u32 == u) by {
        assert(table@ =~= seq![
            'a', 'b', 'c', 'd', 'e', 'f', 'g', 'h', 'i', 'j', 'k', 'l', 'm',
            'n', 'o', 'p', 'q', 'r', 's', 't', 'u', 'v', 'w', 'x', 'y', 'z',
        ]);
    }
    proof {
        vstd::utf8::char_u32_cast(r, u);
    }
    r
}

/// Validates a logical format name and returns it upper-cased.
///
/// Returns [`Error::InvalidInput`] unless the value is 1 to 16 ASCII letters
/// or digits.
pub fn format_name(value: &str) -> (r: Result<String, Error>)
    ensures
        r is Ok <==> valid_format(value@),
        r matches Ok(name) ==> name@ == value@.map_values(|c: char| ascii_upper(c)),
        r matches Err(e) ==> e matches Error::InvalidInput { field, .. } && field == "format",
{
    let s = chars_of(value);
    if s.len() == 0 || s.len() > 16 {
        return Err(invalid_input("format", "expected 1 to 16 ASCII letters or digits"));
    }
    let mut i: usize = 0;
    while i < s.len()
        invariant
            s@ == value@,
            i <= s.len(),
            forall|j: int| 0 <= j < i ==> is_ascii_alnum(#[trigger] s@[j]),
        decreases s.len() - i,
    {
        let c = s[i];
        if !(('0' <= c && c <= '9') || ('a' <= c && c <= 'z') || ('A' <= c && c <= 'Z')) {
            return Err(invalid_input("format", "expected 1 to 16 ASCII letters or digits"));
        }
        i = i + 1;
    }
    Ok(string_of(&to_ascii_upper(&s)))
}


// ---------------------------------------------------------------------------
// Path component sanitisation
// ---------------------------------------------------------------------------
/// Names the characters of the compatibility decomposition (Unicode NFKD) of
/// `s`, as `unicode_normalization`'s `nfkd` produces them.
pub uninterp spec fn nfkd_of(s: Seq<char>) -> Seq<char>;

/// Names the answer of `unicode_normalization::char::is_combining_mark`.
pub uninterp spec fn combining_mark(c: char) -> bool;

/// Calls `UnicodeNormalization::nfkd` on `s` and collects the decomposed
/// characters. The contract only names the result: it is a function of `s`.
#[verifier::external_body]
fn nfkd(s: &str) -> (r: Vec<char>)
    ensures
        r@ == nfkd_of(s@),
{
    s.nfkd().collect()
}

/// Calls `unicode_normalization::char::is_combining_mark`. The contract only
/// names the answer: it is a function of `c`.
#[verifier::external_body]
fn is_combining_mark(c: char) -> (r: bool)
    ensures
        r == combining_mark(c),
{
    unicode_normalization::char::is_combining_mark(c)
}

/// Rust's `char::is_control`: general category `Cc`.
pub open spec fn is_control(c: char) -> bool {
    (c as u32) <= 0x1f || (0x7f <= (c as u32) && (c as u32) <= 0x9f)
}

/// A character that cannot stand in a portable file name.
pub open spec fn is_unsafe_name_char(c: char) -> bool {
    c == '/' || c == '\\' || c == ':' || c == '*' || c == '?' || c == '"' || c == '<' || c
        == '>' || c == '|' || is_control(c)
}

/// The character written for `c` in a portable file name.
pub open spec fn portable_char(c: char) -> char {
    if is_unsafe_name_char(c) {
        '_'
    } else {
        c
    }
}

/// Drops combining marks and replaces characters unsafe in file names.
pub open spec fn portable_chars(s: Seq<char>) -> Seq<char>
    decreases s.len(),
{
    if s.len() == 0 {
        s
    } else if combining_mark(s.last()) {
        portable_chars(s.drop_last())
    } else {
        portable_chars(s.drop_last()).push(portable_char(s.last()))
    }
}

/// `s` without trailing `.` and space characters.
pub open spec fn trim_end_dots(s: Seq<char>) -> Seq<char>
    decreases s.len(),
{
    if s.len() > 0 && (s.last() == '.' || s.last() == ' ') {
        trim_end_dots(s.drop_last())
    } else {
        s
    }
}

/// The number of bytes of the UTF-8 encoding of `c`.
pub open spec fn char_utf8_len(c: char) -> nat {
    if (c as u32) < 0x80 {
        1
    } else if (c as u32) < 0x800 {
        2
    } else if (c as u32) < 0x10000 {
        3
    } else {
        4
    }
}

/// The number of bytes of the UTF-8 encoding of `s` (`str::len`).
pub open spec fn utf8_len(s: Seq<char>) -> nat
    decreases s.len(),
{
    if s.len() == 0 {
        0
    } else {
        utf8_len(s.drop_last()) + char_utf8_len(s.last())
    }
}

/// The longest prefix of `s` whose UTF-8 encoding has at most `max` bytes.
pub open spec fn utf8_prefix(s: Seq<char>, max: nat) -> Seq<char>
    decreases s.len(),
{
    if utf8_len(s) <= max || s.len() == 0 {
        s
    } else {
        utf8_prefix(s.drop_last(), max)
    }
}

/// `s` cut to at most `max` UTF-8 bytes on a character boundary, with
/// trailing whitespace of a cut value removed.
pub open spec fn truncate_spec(s: Seq<char>, max: nat) -> Seq<char> {
    if utf8_len(s) <= max {
        s
    } else {
        trim_end_ws(utf8_prefix(s, max))
    }
}

/// The fallback name of a component that sanitises to nothing.
pub open spec fn unknown_name() -> Seq<char> {
    seq!['U', 'n', 'k', 'n', 'o', 'w', 'n']
}

/// A portable path component for `value`: NFKD without combining marks,
/// unsafe characters replaced by `_`, whitespace trimmed, trailing dots and
/// spaces removed, `Unknown` when nothing is left, cut to 100 UTF-8 bytes.
pub open spec fn sanitize_spec(value: Seq<char>) -> Seq<char> {
    let trimmed = trim_end_dots(trim_ws(portable_chars(nfkd_of(value))));
    let source = if trimmed.len() == 0 {
        unknown_name()
    } else {
        trimmed
    };
    truncate_spec(source, 100)
}

fn char_byte_len(c: char) -> (n: usize)
    ensures
        n == char_utf8_len(c),
{
    let u = c as u32;
    if u < 0x80 {
        1
    } else if u < 0x800 {
        2
    } else if u < 0x10000 {
        3
    } else {
        4
    }
}

proof fn lemma_utf8_prefix_at(s: Seq<char>, max: nat, k: int)
    requires
        0 <= k <= s.len(),
        utf8_len(s.take(k)) <= max,
        k == s.len() || utf8_len(s.take(k + 1)) > max,
    ensures
        utf8_prefix(s, max) == s.take(k),
    decreases s.len() - k,
{
    if k == s.len() {
        assert(s.take(k) =~= s);
    } else {
        lemma_utf8_len_take(s, k + 1);
        let d = s.drop_last();
        assert(d.take(k) =~= s.take(k));
        assert(utf8_len(s) > max);
        assert(utf8_prefix(s, max) == utf8_prefix(d, max));
        if k + 1 == s.len() {
            assert(d =~= s.take(k));
            assert(utf8_prefix(d, max) == d);
        } else {
            assert(d.take(k + 1) =~= s.take(k + 1));
            lemma_utf8_prefix_at(d, max, k);
        }
    }
}

/// Cuts `value` to at most `max_bytes` UTF-8 bytes on a character boundary.
/// A cut value loses its trailing whitespace.
pub fn truncate_utf8(value: &Vec<char>, max_bytes: usize) -> (r: Vec<char>)
    ensures
        r@ == truncate_spec(value@, max_bytes as nat),
{
    let mut bytes: usize = 0;
    let mut k: usize = 0;
    while k < value.len() && char_byte_len(value[k]) <= max_bytes - bytes
        invariant
            k <= value.len(),
            bytes <= max_bytes,
            bytes == utf8_len(value@.take(k as int)),
        decreases value.len() - k,
    {
        assert(value@.take(k + 1).drop_last() =~= value@.take(k as int));
        bytes = bytes + char_byte_len(value[k]);
        k = k + 1;
    }
    if k < value.len() {
        assert(value@.take(k + 1).drop_last() =~= value@.take(k as int));
    }
    proof {
        lemma_utf8_prefix_at(value@, max_bytes as nat, k as int);
    }
    if k == value.len() {
        assert(value@.take(k as int) =~= value@);
        return value.clone();
    }
    proof {
        lemma_utf8_len_take(value@, k + 1);
    }
    let prefix = crate::text::take(value, k);
    crate::text::trim_end(&prefix)
}

/// Drops combining marks and replaces unsafe characters (see [`portable_chars`]).
fn portable(s: &Vec<char>) -> (r: Vec<char>)
    ensures
        r@ == portable_chars(s@),
{
    let mut out: Vec<char> = Vec::new();
    let mut i: usize = 0;
    while i < s.len()
        invariant
            i <= s.len(),
            out@ == portable_chars(s@.take(i as int)),
        decreases s.len() - i,
    {
        let c = s[i];
        assert(s@.take(i + 1).drop_last() =~= s@.take(i as int));
        if !is_combining_mark(c) {
            let u = c as u32;
            let unsafe_char = c == '/' || c == '\\' || c == ':' || c == '*' || c == '?' || c == '"'
                || c == '<' || c == '>' || c == '|' || u <= 0x1f || (0x7f <= u && u <= 0x9f);
            if unsafe_char {
                out.push('_');
            } else {
                out.push(c);
            }
        }
        i = i + 1;
    }
    assert(s@.take(s.len() as int) =~= s@);
    out
}

fn trim_end_dot_space(s: &Vec<char>) -> (r: Vec<char>)
    ensures
        r@ == trim_end_dots(s@),
{
    let mut k: usize = s.len();
    assert(s@.take(k as int) =~= s@);
    while k > 0 && (s[k - 1] == '.' || s[k - 1] == ' ')
        invariant
            k <= s.len(),
            trim_end_dots(s@) == trim_end_dots(s@.take(k as int)),
        decreases k,
    {
        assert(s@.take(k as int).drop_last() =~= s@.take(k - 1));
        k = k - 1;
    }
    crate::text::take(s, k)
}

/// A portable path component for `value` (see [`sanitize_spec`]).
pub fn sanitize_component(value: &str) -> (r: Vec<char>)
    ensures
        r@ == sanitize_spec(value@),
{
    let decomposed = nfkd(value);
    let kept = portable(&decomposed);
    let trimmed = trim_end_dot_space(&trim(&kept));
    let source = if trimmed.len() == 0 {
        chars_of("Unknown")
    } else {
        trimmed
    };
    proof {
        reveal_strlit("Unknown");
        assert(unknown_name() =~= "Unknown"@);
    }
    truncate_utf8(&source, 100)
}




/// No character of `s` is unsafe in a file name.
pub open spec fn portable_text(s: Seq<char>) -> bool {
    forall|i: int| 0 <= i < s.len() ==> !is_unsafe_name_char(#[trigger] s[i])
}

proof fn lemma_portable_chars_safe(s: Seq<char>)
    ensures
        portable_text(portable_chars(s)),
    decreases s.len(),
{
    if s.len() > 0 {
        lemma_portable_chars_safe(s.drop_last());
    }
}

proof fn lemma_trim_end_dots_is_prefix(s: Seq<char>)
    ensures
        trim_end_dots(s).len() <= s.len(),
        trim_end_dots(s) == s.take(trim_end_dots(s).len() as int),
    decreases s.len(),
{
    if s.len() > 0 && (s.last() == '.' || s.last() == ' ') {
        lemma_trim_end_dots_is_prefix(s.drop_last());
        assert(s.drop_last().take(trim_end_dots(s).len() as int) =~= s.take(
            trim_end_dots(s).len() as int,
        ));
    } else {
        assert(s.take(s.len() as int) =~= s);
    }
}

proof fn lemma_utf8_len_take(s: Seq<char>, m: int)
    requires
        0 <= m <= s.len(),
    ensures
        utf8_len(s.take(m)) <= utf8_len(s),
    decreases s.len(),
{
    if m < s.len() {
        assert(s.drop_last().take(m) =~= s.take(m));
        lemma_utf8_len_take(s.drop_last(), m);
    } else {
        assert(s.take(m) =~= s);
    }
}

proof fn lemma_utf8_prefix(s: Seq<char>, max: nat)
    requires
        s.len() > 0,
        max >= 4,
    ensures
        0 < utf8_prefix(s, max).len() <= s.len(),
        utf8_prefix(s, max) == s.take(utf8_prefix(s, max).len() as int),
        utf8_len(utf8_prefix(s, max)) <= max,
    decreases s.len(),
{
    if utf8_len(s) <= max {
        assert(s.take(s.len() as int) =~= s);
    } else {
        if s.len() == 1 {
            assert(s.drop_last().len() == 0);
            assert(utf8_len(s.drop_last()) == 0);
            assert(utf8_len(s) == char_utf8_len(s.last()));
            assert(false);
        }
        lemma_utf8_prefix(s.drop_last(), max);
        assert(s.drop_last().take(utf8_prefix(s, max).len() as int) =~= s.take(
            utf8_prefix(s, max).len() as int,
        ));
    }
}

proof fn lemma_trim_end_keeps_first(p: Seq<char>)
    requires
        p.len() > 0,
        !is_ws(p[0]),
    ensures
        trim_end_ws(p).len() > 0,
    decreases p.len(),
{
    if is_ws(p.last()) {
        lemma_trim_end_keeps_first(p.drop_last());
    }
}

/// A sanitised component is a usable file name: it is not empty, its UTF-8
/// encoding has at most 100 bytes, it holds no path separator, no character
/// that is unsafe in a file name and no control character, and it does not
/// start with whitespace.
pub proof fn lemma_sanitized_component_is_portable(value: Seq<char>)
    ensures
        sanitize_spec(value).len() > 0,
        utf8_len(sanitize_spec(value)) <= 100,
        portable_text(sanitize_spec(value)),
        !is_ws(sanitize_spec(value)[0]),
{
    let kept = portable_chars(nfkd_of(value));
    lemma_portable_chars_safe(nfkd_of(value));
    let e = trim_end_ws(kept);
    crate::text::lemma_trim_end_is_prefix(kept);
    crate::text::lemma_trim_start_is_suffix(e);
    let t = trim_ws(kept);
    lemma_trim_end_dots_is_prefix(t);
    let trimmed = trim_end_dots(t);
    assert(portable_text(e));
    assert(portable_text(t));
    assert(portable_text(trimmed));
    let source = if trimmed.len() == 0 {
        unknown_name()
    } else {
        trimmed
    };
    assert(portable_text(source));
    assert(source.len() > 0);
    assert(!is_ws(source[0]));
    if utf8_len(source) > 100 {
        lemma_utf8_prefix(source, 100);
        let p = utf8_prefix(source, 100);
        assert(p[0] == source[0]);
        lemma_trim_end_keeps_first(p);
        crate::text::lemma_trim_end_is_prefix(p);
        let r = trim_end_ws(p);
        lemma_utf8_len_take(p, r.len() as int);
        assert(r[0] == p[0]);
        assert(portable_text(p));
        assert(portable_text(r));
    }
}




// ---------------------------------------------------------------------------
// File names and extensions
// ---------------------------------------------------------------------------
/// `s` without trailing separators and trailing `/.` components.
pub open spec fn strip_tail(s: Seq<char>) -> Seq<char>
    decreases s.len(),
{
    if s.len() > 0 && s.last() == '/' {
        strip_tail(s.drop_last())
    } else if s.len() >= 2 && s.last() == '.' && s[s.len() - 2] == '/' {
        strip_tail(s.drop_last())
    } else {
        s
    }
}

/// The position just after the last separator of `s` (0 when it has none).
pub open spec fn name_start(s: Seq<char>) -> int
    decreases s.len(),
{
    if s.len() == 0 {
        0
    } else if s.last() == '/' {
        s.len() as int
    } else {
        name_start(s.drop_last())
    }
}

/// The position just after the last `.` of `s` (0 when it has none).
pub open spec fn dot_end(s: Seq<char>) -> int
    decreases s.len(),
{
    if s.len() == 0 {
        0
    } else if s.last() == '.' {
        s.len() as int
    } else {
        dot_end(s.drop_last())
    }
}

/// The final component of a path, as `Path::file_name` gives it.
pub open spec fn file_name_spec(s: Seq<char>) -> Option<Seq<char>> {
    let r = strip_tail(s);
    if r.len() == 0 || r =~= seq!['.'] {
        None
    } else {
        let name = r.skip(name_start(r));
        if name =~= seq!['.', '.'] {
            None
        } else {
            Some(name)
        }
    }
}

/// The extension of a path, as `Path::extension` gives it: the text after
/// the last `.` of the file name, unless that `.` starts the name.
pub open spec fn extension_spec(s: Seq<char>) -> Option<Seq<char>> {
    match file_name_spec(s) {
        Some(name) => if dot_end(name) <= 1 {
            None
        } else {
            Some(name.skip(dot_end(name)))
        },
        None => None,
    }
}

proof fn lemma_name_start_bounds(s: Seq<char>)
    ensures
        0 <= name_start(s) <= s.len(),
    decreases s.len(),
{
    if s.len() > 0 && s.last() != '/' {
        lemma_name_start_bounds(s.drop_last());
    }
}

proof fn lemma_dot_end_bounds(s: Seq<char>)
    ensures
        0 <= dot_end(s) <= s.len(),
    decreases s.len(),
{
    if s.len() > 0 && s.last() != '.' {
        lemma_dot_end_bounds(s.drop_last());
    }
}

proof fn lemma_strip_tail_prefix(s: Seq<char>)
    ensures
        strip_tail(s).len() <= s.len(),
        strip_tail(s) == s.take(strip_tail(s).len() as int),
    decreases s.len(),
{
    if (s.len() > 0 && s.last() == '/') || (s.len() >= 2 && s.last() == '.' && s[s.len() - 2]
        == '/') {
        lemma_strip_tail_prefix(s.drop_last());
        assert(s.drop_last().take(strip_tail(s).len() as int) =~= s.take(
            strip_tail(s).len() as int,
        ));
    } else {
        assert(s.take(s.len() as int) =~= s);
    }
}

/// The position just after the last separator of `s`.
fn find_name_start(s: &Vec<char>) -> (j: usize)
    ensures
        j == name_start(s@),
{
    let mut j: usize = s.len();
    assert(s@.take(j as int) =~= s@);
    while j > 0 && s[j - 1] != '/'
        invariant
            j <= s.len(),
            name_start(s@) == name_start(s@.take(j as int)),
        decreases j,
    {
        assert(s@.take(j as int).drop_last() =~= s@.take(j - 1));
        j = j - 1;
    }
    j
}

/// The position just after the last `.` of `s`.
fn find_dot_end(s: &Vec<char>) -> (j: usize)
    ensures
        j == dot_end(s@),
{
    let mut j: usize = s.len();
    assert(s@.take(j as int) =~= s@);
    while j > 0 && s[j - 1] != '.'
        invariant
            j <= s.len(),
            dot_end(s@) == dot_end(s@.take(j as int)),
        decreases j,
    {
        assert(s@.take(j as int).drop_last() =~= s@.take(j - 1));
        j = j - 1;
    }
    j
}

/// The final component of a path (`Path::file_name`).
pub fn file_name(path: &str) -> (r: Option<Vec<char>>)
    ensures
        r matches Some(name) ==> file_name_spec(path@) == Some(name@),
        r is None ==> file_name_spec(path@) is None,
{
    let s = chars_of(path);
    let mut k: usize = s.len();
    assert(s@.take(k as int) =~= s@);
    while k > 0 && (s[k - 1] == '/' || (k >= 2 && s[k - 1] == '.' && s[k - 2] == '/'))
        invariant
            k <= s.len(),
            strip_tail(s@) == strip_tail(s@.take(k as int)),
        decreases k,
    {
        assert(s@.take(k as int).drop_last() =~= s@.take(k - 1));
        k = k - 1;
    }
    let r = crate::text::take(&s, k);
    assert(strip_tail(r@) == r@);
    if r.len() == 0 || (r.len() == 1 && r[0] == '.') {
        return None;
    }
    let start = find_name_start(&r);
    proof {
        lemma_name_start_bounds(r@);
    }
    let name = crate::text::skip(&r, start);
    if name.len() == 2 && name[0] == '.' && name[1] == '.' {
        assert(name@ =~= seq!['.', '.']);
        return None;
    }
    assert(!(name@ =~= seq!['.', '.']));
    assert(!(r@ =~= seq!['.']));
    Some(name)
}

/// The extension of a path (`Path::extension`).
pub fn extension(path: &str) -> (r: Option<Vec<char>>)
    ensures
        r matches Some(e) ==> extension_spec(path@) == Some(e@),
        r is None ==> extension_spec(path@) is None,
{
    match file_name(path) {
        None => None,
        Some(name) => {
            let d = find_dot_end(&name);
            proof {
                lemma_dot_end_bounds(name@);
            }
            if d <= 1 {
                None
            } else {
                Some(crate::text::skip(&name, d))
            }
        },
    }
}

/// The logical format named by a source file's extension.
///
/// Returns [`Error::InvalidInput`] when the path has no extension or the
/// extension is not 1 to 16 ASCII letters or digits.
pub fn format_from_path(path: &str) -> (r: Result<String, Error>)
    ensures
        r is Ok <==> (extension_spec(path@) matches Some(e) && valid_format(e)),
        r matches Ok(name) ==> (extension_spec(path@) matches Some(e) && name@ == e.map_values(
            |c: char| ascii_upper(c),
        )),
        r matches Err(e) ==> e matches Error::InvalidInput { field, .. } && field == if extension_spec(
            path@,
        ) is Some {
            "format"
        } else {
            "format path"
        },
{
    match extension(path) {
        None => Err(invalid_input("format path", "a file extension is required")),
        Some(e) => {
            let text = string_of(&e);
            format_name(text.as_str())
        },
    }
}

// ---------------------------------------------------------------------------
// Book directory and format file names
// ---------------------------------------------------------------------------
/// The relative directory of a book: `<author>/<title> (<id>)`, both names
/// sanitised.
pub open spec fn book_relative_path_spec(title: Seq<char>, first_author: Seq<char>, id: int) -> Seq<
    char,
> {
    sanitize_spec(first_author) + seq!['/'] + sanitize_spec(title) + seq![' ', '('] + decimal(id)
        + seq![')']
}

/// The relative directory of a book: `<author>/<title> (<id>)`.
pub fn book_relative_path(title: &str, first_author: &str, id: i64) -> (r: String)
    ensures
        r@ == book_relative_path_spec(title@, first_author@, id as int),
{
    let mut out = sanitize_component(first_author);
    out.push('/');
    let t = sanitize_component(title);
    append_chars(&mut out, &t);
    out.push(' ');
    out.push('(');
    let digits = decimal_chars(id);
    append_chars(&mut out, &digits);
    out.push(')');
    assert(out@ =~= book_relative_path_spec(title@, first_author@, id as int));
    string_of(&out)
}

/// The file-name stem of a book's formats: `<title> - <author>`, sanitised.
pub open spec fn format_stem_spec(title: Seq<char>, first_author: Seq<char>) -> Seq<char> {
    sanitize_spec(title + seq![' ', '-', ' '] + first_author)
}

/// The file-name stem of a book's formats: `<title> - <author>`, sanitised.
pub fn format_stem(title: &str, first_author: &str) -> (r: String)
    ensures
        r@ == format_stem_spec(title@, first_author@),
{
    let mut joined = chars_of(title);
    joined.push(' ');
    joined.push('-');
    joined.push(' ');
    append_str(&mut joined, first_author);
    let text = string_of(&joined);
    assert(text@ =~= title@ + seq![' ', '-', ' '] + first_author@);
    string_of(&sanitize_component(text.as_str()))
}

/// The file name of one format of a book: `<stem>.<format in lower case>`.
pub open spec fn format_file_name_spec(stem: Seq<char>, format: Seq<char>) -> Seq<char> {
    stem + seq!['.'] + format.map_values(|c: char| ascii_lower(c))
}

/// The file name of one format of a book: `<stem>.<format in lower case>`.
pub fn format_file_name(stem: &str, format: &str) -> (r: String)
    ensures
        r@ == format_file_name_spec(stem@, format@),
{
    let mut out = chars_of(stem);
    out.push('.');
    let lower = to_ascii_lower(&chars_of(format));
    append_chars(&mut out, &lower);
    string_of(&out)
}

// ---------------------------------------------------------------------------
// Path components
// ---------------------------------------------------------------------------
/// The component a run of text between separators contributes: none for an
/// empty run or `.`, the run itself otherwise.
pub open spec fn piece(t: Seq<char>) -> Seq<Seq<char>> {
    if t.len() == 0 || t =~= seq!['.'] {
        Seq::empty()
    } else {
        seq![t]
    }
}

/// The components of `s[start..]`, the current run having begun at `start`
/// and the scan being at `i`.
pub open spec fn components_after(s: Seq<char>, start: int, i: int) -> Seq<Seq<char>>
    decreases s.len() - i,
{
    if i >= s.len() || i < start || start < 0 {
        piece(s.subrange(start, s.len() as int))
    } else if s[i] == '/' {
        piece(s.subrange(start, i)) + components_after(s, i + 1, i + 1)
    } else {
        components_after(s, start, i + 1)
    }
}

/// The components of a relative path, as `Path::components` yields them:
/// separators repeat freely and `.` components vanish.
pub open spec fn path_components(s: Seq<char>) -> Seq<Seq<char>> {
    components_after(s, 0, 0)
}

/// The text of each component.
pub open spec fn component_views(v: Seq<Vec<char>>) -> Seq<Seq<char>> {
    v.map_values(|c: Vec<char>| c@)
}

fn push_piece(out: &mut Vec<Vec<char>>, s: &Vec<char>, start: usize, end: usize)
    requires
        start <= end <= s.len(),
    ensures
        component_views(final(out)@) == component_views(old(out)@) + piece(
            s@.subrange(start as int, end as int),
        ),
{
    let t = crate::text::skip(&crate::text::take(s, end), start);
    assert(t@ =~= s@.subrange(start as int, end as int));
    if t.len() == 0 || (t.len() == 1 && t[0] == '.') {
        assert(piece(t@) =~= Seq::<Seq<char>>::empty());
        assert(component_views(old(out)@) + piece(t@) =~= component_views(old(out)@));
    } else {
        assert(!(t@ =~= seq!['.']));
        out.push(t);
        assert(component_views(out@) =~= component_views(old(out)@) + piece(
            s@.subrange(start as int, end as int),
        ));
    }
}

/// The components of a relative path (`Path::components`).
pub fn components(path: &str) -> (r: Vec<Vec<char>>)
    ensures
        component_views(r@) == path_components(path@),
{
    let s = chars_of(path);
    let mut out: Vec<Vec<char>> = Vec::new();
    let mut start: usize = 0;
    let mut i: usize = 0;
    while i < s.len()
        invariant
            s@ == path@,
            start <= i <= s.len(),
            component_views(out@) + components_after(s@, start as int, i as int) == path_components(
                s@,
            ),
        decreases s.len() - i,
    {
        if s[i] == '/' {
            let ghost before = component_views(out@);
            push_piece(&mut out, &s, start, i);
            assert(before + components_after(s@, start as int, i as int) =~= component_views(out@)
                + components_after(s@, (i + 1) as int, (i + 1) as int));
            start = i + 1;
        }
        i = i + 1;
    }
    let ghost before = component_views(out@);
    push_piece(&mut out, &s, start, s.len());
    assert(before + components_after(s@, start as int, i as int) =~= component_views(out@));
    out
}

/// Whether two component lists are equal.
pub fn same_components(a: &Vec<Vec<char>>, b: &Vec<Vec<char>>) -> (r: bool)
    ensures
        r == (component_views(a@) == component_views(b@)),
{
    if a.len() != b.len() {
        assert(component_views(a@).len() != component_views(b@).len());
        return false;
    }
    let mut i: usize = 0;
    while i < a.len()
        invariant
            a.len() == b.len(),
            i <= a.len(),
            forall|j: int| 0 <= j < i ==> a@[j]@ == b@[j]@,
        decreases a.len() - i,
    {
        if !crate::text::chars_eq(&a[i], &b[i]) {
            assert(component_views(a@)[i as int] != component_views(b@)[i as int]);
            return false;
        }
        i = i + 1;
    }
    assert(component_views(a@) =~= component_views(b@));
    true
}

/// Whether two paths are equal as `Path` values: the same components.
pub fn same_path(a: &str, b: &str) -> (r: bool)
    ensures
        r == (path_components(a@) == path_components(b@)),
{
    same_components(&components(a), &components(b))
}

/// All components but the last: the parent of a relative path, the library
/// root (no components) for a path of one component.
pub open spec fn parent_components(c: Seq<Seq<char>>) -> Seq<Seq<char>> {
    if c.len() == 0 {
        c
    } else {
        c.drop_last()
    }
}

pub(crate) fn drop_last_component(c: &mut Vec<Vec<char>>)
    ensures
        component_views(final(c)@) == parent_components(component_views(old(c)@)),
{
    if c.len() > 0 {
        c.pop();
        assert(component_views(c@) =~= component_views(old(c)@).drop_last());
    }
}

/// Whether two paths have the same parent directory.
pub fn same_parent(a: &str, b: &str) -> (r: bool)
    ensures
        r == (parent_components(path_components(a@)) == parent_components(path_components(b@))),
{
    let mut ca = components(a);
    let mut cb = components(b);
    drop_last_component(&mut ca);
    drop_last_component(&mut cb);
    same_components(&ca, &cb)
}

// ---------------------------------------------------------------------------
// Private sibling paths
// ---------------------------------------------------------------------------
/// A lower-case hexadecimal digit.
pub open spec fn is_lower_hex(c: char) -> bool {
    ('0' <= c <= '9') || ('a' <= c <= 'f')
}

/// The text of a UUID as `uuid::Uuid` displays it: 36 characters, hyphens
/// at positions 8, 13, 18 and 23, lower-case hexadecimal digits elsewhere.
pub open spec fn uuid_text(s: Seq<char>) -> bool {
    &&& s.len() == 36
    &&& forall|i: int|
        0 <= i < 36 ==> if i == 8 || i == 13 || i == 18 || i == 23 {
            #[trigger] s[i] == '-'
        } else {
            is_lower_hex(s[i])
        }
}

/// Calls `uuid::Uuid::new_v4` and displays the result. The uuid crate
/// formats a UUID as 32 lower-case hexadecimal digits in groups of 8, 4, 4,
/// 4 and 12 separated by hyphens; the value itself is random, so nothing
/// more is stated of it.
#[verifier::external_body]
pub(crate) fn new_uuid() -> (r: String)
    ensures
        uuid_text(r@),
{
    uuid::Uuid::new_v4().to_string()
}

/// The path of a file named `name` in the directory of `destination`.
pub open spec fn sibling_spec(destination: Seq<char>, name: Seq<char>) -> Seq<char> {
    let t = strip_tail(destination);
    t.take(name_start(t)) + name
}

/// The path of a file named `name` next to `destination`
/// (`Path::with_file_name` on a relative path).
pub fn sibling_path(destination: &str, name: &str) -> (r: String)
    ensures
        r@ == sibling_spec(destination@, name@),
{
    let s = chars_of(destination);
    let mut k: usize = s.len();
    assert(s@.take(k as int) =~= s@);
    while k > 0 && (s[k - 1] == '/' || (k >= 2 && s[k - 1] == '.' && s[k - 2] == '/'))
        invariant
            k <= s.len(),
            strip_tail(s@) == strip_tail(s@.take(k as int)),
        decreases k,
    {
        assert(s@.take(k as int).drop_last() =~= s@.take(k - 1));
        k = k - 1;
    }
    let t = crate::text::take(&s, k);
    assert(strip_tail(t@) == t@);
    let start = find_name_start(&t);
    proof {
        lemma_name_start_bounds(t@);
    }
    let mut out = crate::text::take(&t, start);
    append_str(&mut out, name);
    string_of(&out)
}

/// The name of a private sibling: `.calibre-rs-<purpose>-<id>`.
pub open spec fn private_name_spec(purpose: Seq<char>, id: Seq<char>) -> Seq<char> {
    ".calibre-rs-"@ + purpose + seq!['-'] + id
}

/// A fresh private sibling of `destination` for `purpose` (such as
/// `backup`, `stage` or `prior`), named with a random UUID.
pub fn private_sibling(destination: &str, purpose: &str) -> (r: String)
    ensures
        exists|id: Seq<char>|
            uuid_text(id) && r@ == sibling_spec(destination@, private_name_spec(purpose@, id)),
{
    let id = new_uuid();
    let mut name = chars_of(".calibre-rs-");
    append_str(&mut name, purpose);
    name.push('-');
    append_str(&mut name, id.as_str());
    let name = string_of(&name);
    assert(name@ =~= private_name_spec(purpose@, id@));
    sibling_path(destination, name.as_str())
}

} // verus!
