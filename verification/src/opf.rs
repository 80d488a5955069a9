use crate::ids::BookId;
use crate::model::{Author, Identifier, Language, Publisher, Rating, Tag};
use crate::paths::{ascii_upper, new_uuid, to_ascii_upper, uuid_text};
use crate::books::opt_text;
use crate::error::{invalid_library, unsupported, Error};
use crate::sorting::{eq_ignore_ascii_case, equal_ignore_ascii_case};
use crate::text::{
    append_chars, append_str, chars_eq, chars_of, decimal, decimal_chars, parse_i64, parse_int,
    string_of, trim, trim_ws,
};
use vstd::prelude::*;

verus! {

/// The largest `metadata.opf` read from the trash, in bytes.
pub const MAX_OPF_BYTES: u64 = 4 * 1024 * 1024;

/// A book's series as `metadata.opf` records it, its index already written
/// as text.
#[derive(Clone, Debug)]
pub struct OpfSeries {
    /// Series name.
    pub name: String,
    /// Series index, as its decimal text.
    pub index: String,
}

/// The core metadata of a book that `metadata.opf` records.
#[derive(Clone, Debug)]
pub struct OpfMetadata {
    /// Book ID.
    pub id: BookId,
    /// Title.
    pub title: String,
    /// Authors in order.
    pub authors: Vec<Author>,
    /// Book UUID; a fresh one is written when it is absent.
    pub uuid: Option<String>,
    /// External identifiers.
    pub identifiers: Vec<Identifier>,
    /// Publication date.
    pub publication_date: Option<String>,
    /// Comments.
    pub comments: Option<String>,
    /// Publisher.
    pub publisher: Option<Publisher>,
    /// Languages.
    pub languages: Vec<Language>,
    /// Tags.
    pub tags: Vec<Tag>,
    /// Series.
    pub series: Option<OpfSeries>,
    /// Rating.
    pub rating: Option<Rating>,
    /// Date added.
    pub timestamp: Option<String>,
    /// Title sort.
    pub sort: Option<String>,
    /// Author sort.
    pub author_sort: Option<String>,
    /// Last modification time.
    pub last_modified: String,
}

// ---------------------------------------------------------------------------
// Escaping
// ---------------------------------------------------------------------------
/// A character XML 1.0 allows in a document.
pub open spec fn xml_char(c: char) -> bool {
    let u = c as u32;
    ||| c == '\t'
    ||| c == '\n'
    ||| c == '\r'
    ||| 0x20 <= u <= 0xD7FF
    ||| 0xE000 <= u <= 0xFFFD
    ||| 0x10000 <= u <= 0x10FFFF
}

/// How text content writes one character: markup characters as entities,
/// characters XML forbids as U+FFFD.
pub open spec fn text_entity(c: char) -> Seq<char> {
    if c == '&' {
        "&amp;"@
    } else if c == '<' {
        "&lt;"@
    } else if c == '>' {
        "&gt;"@
    } else if xml_char(c) {
        seq![c]
    } else {
        seq!['\u{FFFD}']
    }
}

/// How an attribute value writes one character: as text content, with both
/// quote characters also as entities.
pub open spec fn attribute_entity(c: char) -> Seq<char> {
    if c == '"' {
        "&quot;"@
    } else if c == '\'' {
        "&apos;"@
    } else {
        text_entity(c)
    }
}

/// Escaped text content.
pub open spec fn escaped_text(s: Seq<char>) -> Seq<char>
    decreases s.len(),
{
    if s.len() == 0 {
        Seq::empty()
    } else {
        escaped_text(s.drop_last()) + text_entity(s.last())
    }
}

/// An escaped attribute value.
pub open spec fn escaped_attribute(s: Seq<char>) -> Seq<char>
    decreases s.len(),
{
    if s.len() == 0 {
        Seq::empty()
    } else {
        escaped_attribute(s.drop_last()) + attribute_entity(s.last())
    }
}

fn push_entity(out: &mut Vec<char>, c: char, attribute: bool)
    ensures
        final(out)@ == old(out)@ + if attribute {
            attribute_entity(c)
        } else {
            text_entity(c)
        },
{
    proof {
        reveal_strlit("&amp;");
        reveal_strlit("&lt;");
        reveal_strlit("&gt;");
        reveal_strlit("&quot;");
        reveal_strlit("&apos;");
    }
    let u = c as u32;
    if attribute && c == '"' {
        append_str(out, "&quot;");
    } else if attribute && c == '\'' {
        append_str(out, "&apos;");
    } else if c == '&' {
        append_str(out, "&amp;");
    } else if c == '<' {
        append_str(out, "&lt;");
    } else if c == '>' {
        append_str(out, "&gt;");
    } else if c == '\t' || c == '\n' || c == '\r' || (0x20 <= u && u <= 0xD7FF) || (0xE000 <= u
        && u <= 0xFFFD) || (0x10000 <= u && u <= 0x10FFFF) {
        out.push(c);
    } else {
        out.push('\u{FFFD}');
    }
}

fn push_escaped(out: &mut Vec<char>, value: &str, attribute: bool)
    ensures
        final(out)@ == old(out)@ + if attribute {
            escaped_attribute(value@)
        } else {
            escaped_text(value@)
        },
{
    let s = chars_of(value);
    let mut i: usize = 0;
    while i < s.len()
        invariant
            s@ == value@,
            i <= s.len(),
            out@ == old(out)@ + if attribute {
                escaped_attribute(s@.take(i as int))
            } else {
                escaped_text(s@.take(i as int))
            },
        decreases s.len() - i,
    {
        push_entity(out, s[i], attribute);
        i = i + 1;
        assert(s@.take(i as int).drop_last() =~= s@.take(i - 1));
        assert(s@.take(i as int).last() == s@[i - 1]);
        assert(out@ =~= old(out)@ + if attribute {
            escaped_attribute(s@.take(i as int))
        } else {
            escaped_text(s@.take(i as int))
        });
    }
    assert(s@.take(s.len() as int) =~= s@);
}

/// Escapes text content for XML: `&`, `<` and `>` as entities, characters
/// XML forbids as U+FFFD.
pub fn escape_text(value: &str) -> (r: String)
    ensures
        r@ == escaped_text(value@),
{
    let mut out: Vec<char> = Vec::new();
    push_escaped(&mut out, value, false);
    string_of(&out)
}

/// Escapes an attribute value for XML: as text content, with `"` and `'`
/// also as entities.
pub fn escape_attribute(value: &str) -> (r: String)
    ensures
        r@ == escaped_attribute(value@),
{
    let mut out: Vec<char> = Vec::new();
    push_escaped(&mut out, value, true);
    string_of(&out)
}

/// A character escaped output may hold: one XML allows, never `<` or `>`,
/// and in an attribute value no quote.
pub open spec fn safe_char(c: char, attribute: bool) -> bool {
    &&& xml_char(c)
    &&& c != '<'
    &&& c != '>'
    &&& attribute ==> c != '"' && c != '\''
}

/// Every character of `e` is safe.
pub open spec fn safe_chars(e: Seq<char>, attribute: bool) -> bool {
    forall|j: int| 0 <= j < e.len() ==> safe_char(#[trigger] e[j], attribute)
}

/// The escaping of a value as text content or as an attribute value.
pub open spec fn escaped(s: Seq<char>, attribute: bool) -> Seq<char> {
    if attribute {
        escaped_attribute(s)
    } else {
        escaped_text(s)
    }
}

proof fn lemma_entity_safe(c: char, attribute: bool)
    ensures
        safe_chars(
            if attribute {
                attribute_entity(c)
            } else {
                text_entity(c)
            },
            attribute,
        ),
{
    reveal_strlit("&amp;");
    reveal_strlit("&lt;");
    reveal_strlit("&gt;");
    reveal_strlit("&quot;");
    reveal_strlit("&apos;");
}

/// Escaped text holds only characters XML allows and never `<` or `>`, so
/// it cannot open or close markup; an escaped attribute value also holds no
/// quote that could end the attribute.
pub proof fn lemma_escaped_is_safe(s: Seq<char>, attribute: bool)
    ensures
        safe_chars(escaped(s, attribute), attribute),
    decreases s.len(),
{
    if s.len() > 0 {
        lemma_escaped_is_safe(s.drop_last(), attribute);
        lemma_entity_safe(s.last(), attribute);
        let p = escaped(s.drop_last(), attribute);
        let q = if attribute {
            attribute_entity(s.last())
        } else {
            text_entity(s.last())
        };
        let e = escaped(s, attribute);
        assert(e =~= p + q);
        assert forall|j: int| 0 <= j < e.len() implies safe_char(#[trigger] e[j], attribute) by {
            if j < p.len() {
                assert(e[j] == p[j]);
            } else {
                assert(e[j] == q[j - p.len()]);
            }
        }
    }
}

// ---------------------------------------------------------------------------
// The document
// ---------------------------------------------------------------------------
/// Attributes written inside a start tag: ` name="value"` each, values
/// escaped.
pub open spec fn attributes_text(attributes: Seq<(Seq<char>, Seq<char>)>) -> Seq<char>
    decreases attributes.len(),
{
    if attributes.len() == 0 {
        Seq::empty()
    } else {
        attributes_text(attributes.drop_last()) + seq![' '] + attributes.last().0 + seq!['=', '"']
            + escaped_attribute(attributes.last().1) + seq!['"']
    }
}

/// One metadata element on its own line.
pub open spec fn element_text(
    name: Seq<char>,
    value: Seq<char>,
    attributes: Seq<(Seq<char>, Seq<char>)>,
) -> Seq<char> {
    seq![' ', ' ', ' ', ' ', '<'] + name + attributes_text(attributes) + seq!['>'] + escaped_text(
        value,
    ) + seq!['<', '/'] + name + seq!['>', '\n']
}

/// One `meta` element on its own line.
pub open spec fn meta_text(name: Seq<char>, content: Seq<char>) -> Seq<char> {
    "    <meta name=\""@ + escaped_attribute(name) + "\" content=\""@ + escaped_attribute(content)
        + "\"/>\n"@
}

fn push_attribute(out: &mut Vec<char>, name: &str, value: &str)
    ensures
        final(out)@ == old(out)@ + seq![' '] + name@ + seq!['=', '"'] + escaped_attribute(value@)
            + seq!['"'],
{
    out.push(' ');
    append_str(out, name);
    out.push('=');
    out.push('"');
    push_escaped(out, value, true);
    out.push('"');
}

fn push_element_open(out: &mut Vec<char>, name: &str)
    ensures
        final(out)@ == old(out)@ + seq![' ', ' ', ' ', ' ', '<'] + name@,
{
    out.push(' ');
    out.push(' ');
    out.push(' ');
    out.push(' ');
    out.push('<');
    append_str(out, name);
}

fn push_element_close(out: &mut Vec<char>, name: &str, value: &str)
    ensures
        final(out)@ == old(out)@ + seq!['>'] + escaped_text(value@) + seq!['<', '/'] + name@
            + seq!['>', '\n'],
{
    out.push('>');
    push_escaped(out, value, false);
    out.push('<');
    out.push('/');
    append_str(out, name);
    out.push('>');
    out.push('\n');
}

/// Appends an element without attributes.
fn element0(out: &mut Vec<char>, name: &str, value: &str)
    ensures
        final(out)@ == old(out)@ + element_text(name@, value@, Seq::empty()),
{
    push_element_open(out, name);
    push_element_close(out, name, value);
    assert(final(out)@ =~= old(out)@ + element_text(name@, value@, Seq::empty()));
}

/// Appends an element with one attribute.
fn element1(out: &mut Vec<char>, name: &str, value: &str, a: &str, av: &str)
    ensures
        final(out)@ == old(out)@ + element_text(name@, value@, seq![(a@, av@)]),
{
    push_element_open(out, name);
    push_attribute(out, a, av);
    push_element_close(out, name, value);
    let ghost attrs = seq![(a@, av@)];
    assert(attrs.drop_last() =~= Seq::<(Seq<char>, Seq<char>)>::empty());
    assert(attributes_text(attrs.drop_last()) =~= Seq::<char>::empty());
    assert(attrs.last() == (a@, av@));
    assert(attributes_text(attrs) =~= seq![' '] + a@ + seq!['=', '"'] + escaped_attribute(av@)
        + seq!['"']);
    assert(out@ =~= old(out)@ + element_text(name@, value@, attrs));
}

/// Appends an element with two attributes.
fn element2(out: &mut Vec<char>, name: &str, value: &str, a: &str, av: &str, b: &str, bv: &str)
    ensures
        final(out)@ == old(out)@ + element_text(name@, value@, seq![(a@, av@), (b@, bv@)]),
{
    push_element_open(out, name);
    push_attribute(out, a, av);
    push_attribute(out, b, bv);
    push_element_close(out, name, value);
    let ghost attrs = seq![(a@, av@), (b@, bv@)];
    let ghost one = seq![(a@, av@)];
    assert(attrs.drop_last() =~= one);
    assert(one.drop_last() =~= Seq::<(Seq<char>, Seq<char>)>::empty());
    assert(attributes_text(one.drop_last()) =~= Seq::<char>::empty());
    assert(one.last() == (a@, av@));
    assert(attrs.last() == (b@, bv@));
    assert(attributes_text(one) =~= seq![' '] + a@ + seq!['=', '"'] + escaped_attribute(av@)
        + seq!['"']);
    assert(attributes_text(attrs) =~= attributes_text(one) + seq![' '] + b@ + seq!['=', '"']
        + escaped_attribute(bv@) + seq!['"']);
    assert(out@ =~= old(out)@ + element_text(name@, value@, attrs));
}

/// Appends a `meta` element.
fn meta(out: &mut Vec<char>, name: &str, content: &str)
    ensures
        final(out)@ == old(out)@ + meta_text(name@, content@),
{
    proof {
        reveal_strlit("    <meta name=\"");
        reveal_strlit("\" content=\"");
        reveal_strlit("\"/>\n");
    }
    append_str(out, "    <meta name=\"");
    push_escaped(out, name, true);
    append_str(out, "\" content=\"");
    push_escaped(out, content, true);
    append_str(out, "\"/>\n");
    assert(final(out)@ =~= old(out)@ + meta_text(name@, content@));
}

/// The sort an author is filed as: its sort, else its name.
pub open spec fn file_as(a: Author) -> Seq<char> {
    match a.sort {
        Some(s) => s@,
        None => a.name@,
    }
}

/// The `dc:creator` elements of the authors, in order.
pub open spec fn creators_text(authors: Seq<Author>) -> Seq<char>
    decreases authors.len(),
{
    if authors.len() == 0 {
        Seq::empty()
    } else {
        creators_text(authors.drop_last()) + element_text(
            "dc:creator"@,
            authors.last().name@,
            seq![("opf:file-as"@, file_as(authors.last())), ("opf:role"@, "aut"@)],
        )
    }
}

/// The `dc:identifier` elements of the external identifiers, in order,
/// schemes in upper case.
pub open spec fn identifiers_text(identifiers: Seq<Identifier>) -> Seq<char>
    decreases identifiers.len(),
{
    if identifiers.len() == 0 {
        Seq::empty()
    } else {
        identifiers_text(identifiers.drop_last()) + element_text(
            "dc:identifier"@,
            identifiers.last().value@,
            seq![("opf:scheme"@, identifiers.last().kind@.map_values(|c: char| ascii_upper(c)))],
        )
    }
}

/// The `dc:language` elements, in order.
pub open spec fn languages_text(languages: Seq<Language>) -> Seq<char>
    decreases languages.len(),
{
    if languages.len() == 0 {
        Seq::empty()
    } else {
        languages_text(languages.drop_last()) + element_text(
            "dc:language"@,
            languages.last().code@,
            Seq::empty(),
        )
    }
}

/// The `dc:subject` elements of the tags, in order.
pub open spec fn tags_text(tags: Seq<Tag>) -> Seq<char>
    decreases tags.len(),
{
    if tags.len() == 0 {
        Seq::empty()
    } else {
        tags_text(tags.drop_last()) + element_text("dc:subject"@, tags.last().name@, Seq::empty())
    }
}

/// An optional element: the element when the value is present.
pub open spec fn optional_element(name: Seq<char>, value: Option<String>) -> Seq<char> {
    match value {
        Some(v) => element_text(name, v@, Seq::empty()),
        None => Seq::empty(),
    }
}

/// An optional `meta` element.
pub open spec fn optional_meta(name: Seq<char>, value: Option<String>) -> Seq<char> {
    match value {
        Some(v) => meta_text(name, v@),
        None => Seq::empty(),
    }
}

/// The lines that open the package and its metadata.
pub open spec fn opf_head() -> Seq<char> {
    "<?xml version=\"1.0\" encoding=\"UTF-8\"?>\n<package xmlns=\"http://www.idpf.org/2007/opf\" unique-identifier=\"uuid_id\" version=\"2.0\">\n  <metadata xmlns:dc=\"http://purl.org/dc/elements/1.1/\" xmlns:opf=\"http://www.idpf.org/2007/opf\">\n"@
}

/// The lines that close the metadata and the package.
pub open spec fn opf_tail() -> Seq<char> {
    "  </metadata>\n  <guide><reference href=\"cover.jpg\" type=\"cover\" title=\"Cover\"/></guide>\n</package>\n"@
}

/// The title, author, contributor and ID elements.
pub open spec fn identity_section(b: OpfMetadata, uuid: Seq<char>) -> Seq<char> {
    element_text("dc:title"@, b.title@, Seq::empty()) + creators_text(b.authors@) + element_text(
        "dc:contributor"@,
        "calibre-rs"@,
        seq![("opf:file-as"@, "calibre-rs"@), ("opf:role"@, "bkp"@)],
    ) + element_text("dc:identifier"@, decimal(b.id@ as int), seq![("opf:scheme"@, "calibre"@)])
        + element_text("dc:identifier"@, uuid, seq![("id"@, "uuid_id"@), ("opf:scheme"@, "uuid"@)])
}

/// The external identifiers and the optional Dublin Core fields.
pub open spec fn core_section(b: OpfMetadata) -> Seq<char> {
    identifiers_text(b.identifiers@) + optional_element("dc:date"@, b.publication_date)
        + optional_element("dc:description"@, b.comments) + match b.publisher {
        Some(p) => element_text("dc:publisher"@, p.name@, Seq::empty()),
        None => Seq::empty(),
    } + languages_text(b.languages@) + tags_text(b.tags@)
}

/// Calibre's own `meta` fields.
pub open spec fn calibre_section(b: OpfMetadata) -> Seq<char> {
    series_rating_text(b) + sorts_text(b)
}

/// The series and rating `meta` fields.
pub open spec fn series_rating_text(b: OpfMetadata) -> Seq<char> {
    (match b.series {
        Some(s) => meta_text("calibre:series"@, s.name@) + meta_text(
            "calibre:series_index"@,
            s.index@,
        ),
        None => Seq::empty(),
    }) + (match b.rating {
        Some(r) => meta_text("calibre:rating"@, decimal(r@ as int)),
        None => Seq::empty(),
    })
}

/// The timestamp, sort and modification `meta` fields.
pub open spec fn sorts_text(b: OpfMetadata) -> Seq<char> {
    optional_meta("calibre:timestamp"@, b.timestamp) + optional_meta(
        "calibre:title_sort"@,
        b.sort,
    ) + optional_meta("calibre:author_sort"@, b.author_sort) + meta_text(
        "calibre:last_modified"@,
        b.last_modified@,
    )
}

/// The `metadata.opf` document of a book written with `uuid`: the title,
/// authors, contributor, IDs, optional core fields, Calibre's `meta`
/// fields and the cover guide, in that order.
pub open spec fn opf_document(b: OpfMetadata, uuid: Seq<char>) -> Seq<char> {
    opf_head() + identity_section(b, uuid) + core_section(b) + calibre_section(b) + opf_tail()
}

/// Whether `part` stands in `text` as one contiguous run of characters.
pub open spec fn occurs_in(part: Seq<char>, text: Seq<char>) -> bool {
    exists|i: int|
        0 <= i && i + part.len() <= text.len() && #[trigger] text.subrange(i, i + part.len())
            == part
}

proof fn lemma_occurs_mid(pre: Seq<char>, mid: Seq<char>, post: Seq<char>)
    ensures
        occurs_in(mid, pre + mid + post),
{
    let t = pre + mid + post;
    assert(t.subrange(pre.len() as int, (pre.len() + mid.len()) as int) =~= mid);
}

proof fn lemma_occurs_trans(a: Seq<char>, b: Seq<char>, c: Seq<char>)
    requires
        occurs_in(a, b),
        occurs_in(b, c),
    ensures
        occurs_in(a, c),
{
    let i = choose|i: int|
        0 <= i && i + a.len() <= b.len() && #[trigger] b.subrange(i, i + a.len()) == a;
    let j = choose|j: int|
        0 <= j && j + b.len() <= c.len() && #[trigger] c.subrange(j, j + b.len()) == b;
    assert(c.subrange(j + i, j + i + a.len()) =~= b.subrange(i, i + a.len()));
}

/// The element of `element_text` without its indentation and line end.
pub open spec fn element_markup(
    name: Seq<char>,
    value: Seq<char>,
    attributes: Seq<(Seq<char>, Seq<char>)>,
) -> Seq<char> {
    seq!['<'] + name + attributes_text(attributes) + seq!['>'] + escaped_text(value) + seq![
        '<',
        '/',
    ] + name + seq!['>']
}

proof fn lemma_element_occurs(
    part: Seq<char>,
    name: Seq<char>,
    value: Seq<char>,
    attributes: Seq<(Seq<char>, Seq<char>)>,
)
    requires
        occurs_in(part, element_markup(name, value, attributes)),
    ensures
        occurs_in(part, element_text(name, value, attributes)),
{
    let m = element_markup(name, value, attributes);
    let pre = seq![' ', ' ', ' ', ' '];
    let post = seq!['\n'];
    let e = element_text(name, value, attributes);
    assert(e =~= pre + m + post) by {
        let esc = escaped_text(value);
        let at = attributes_text(attributes);
        assert(e == seq![' ', ' ', ' ', ' ', '<'] + name + at + seq!['>'] + esc + seq!['<', '/'] + name + seq!['>', '\n']);
        assert(m == seq!['<'] + name + at + seq!['>'] + esc + seq!['<', '/'] + name + seq!['>']);
        assert(e.len() == pre.len() + m.len() + post.len());
        assert forall|i: int| 0 <= i < e.len() implies e[i] == (pre + m + post)[i] by {
        }
    }
    lemma_occurs_mid(pre, m, post);
    lemma_occurs_trans(part, m, element_text(name, value, attributes));
}

proof fn lemma_plain_element(name: Seq<char>, value: Seq<char>, open: Seq<char>, close: Seq<char>)
    requires
        open == seq!['<'] + name + seq!['>'],
        close == seq!['<', '/'] + name + seq!['>'],
    ensures
        occurs_in(open + escaped_text(value) + close, element_text(name, value, Seq::empty())),
{
    let part = open + escaped_text(value) + close;
    assert(part =~= element_markup(name, value, Seq::empty()));
    lemma_occurs_mid(Seq::empty(), part, Seq::empty());
    assert(Seq::<char>::empty() + part + Seq::<char>::empty() =~= part);
    lemma_element_occurs(part, name, value, Seq::empty());
}

proof fn lemma_tag_occurs(tags: Seq<Tag>, k: int)
    requires
        0 <= k < tags.len(),
    ensures
        occurs_in(element_text("dc:subject"@, tags[k].name@, Seq::empty()), tags_text(tags)),
    decreases tags.len(),
{
    let e = element_text("dc:subject"@, tags[k].name@, Seq::empty());
    let prev = tags_text(tags.drop_last());
    let last = element_text("dc:subject"@, tags.last().name@, Seq::empty());
    assert(tags_text(tags) =~= prev + last + Seq::empty());
    if k == tags.len() - 1 {
        lemma_occurs_mid(prev, last, Seq::empty());
    } else {
        lemma_tag_occurs(tags.drop_last(), k);
        assert(tags.drop_last()[k] == tags[k]);
        lemma_occurs_mid(Seq::empty(), prev, last);
        assert(Seq::<char>::empty() + prev + last =~= tags_text(tags));
        lemma_occurs_trans(e, prev, tags_text(tags));
    }
}

proof fn lemma_language_occurs(languages: Seq<Language>, k: int)
    requires
        0 <= k < languages.len(),
    ensures
        occurs_in(
            element_text("dc:language"@, languages[k].code@, Seq::empty()),
            languages_text(languages),
        ),
    decreases languages.len(),
{
    let e = element_text("dc:language"@, languages[k].code@, Seq::empty());
    let prev = languages_text(languages.drop_last());
    let last = element_text("dc:language"@, languages.last().code@, Seq::empty());
    assert(languages_text(languages) =~= prev + last + Seq::empty());
    if k == languages.len() - 1 {
        lemma_occurs_mid(prev, last, Seq::empty());
    } else {
        lemma_language_occurs(languages.drop_last(), k);
        assert(languages.drop_last()[k] == languages[k]);
        lemma_occurs_mid(Seq::empty(), prev, last);
        assert(Seq::<char>::empty() + prev + last =~= languages_text(languages));
        lemma_occurs_trans(e, prev, languages_text(languages));
    }
}

proof fn lemma_core_in_document(b: OpfMetadata, uuid: Seq<char>, part: Seq<char>)
    requires
        occurs_in(part, core_section(b)),
    ensures
        occurs_in(part, opf_document(b, uuid)),
{
    let doc = opf_document(b, uuid);
    lemma_occurs_mid(opf_head() + identity_section(b, uuid), core_section(b), calibre_section(b) + opf_tail());
    assert(doc =~= (opf_head() + identity_section(b, uuid)) + core_section(b) + (calibre_section(b) + opf_tail()));
    lemma_occurs_trans(part, core_section(b), doc);
}

proof fn lemma_identity_in_document(b: OpfMetadata, uuid: Seq<char>, part: Seq<char>)
    requires
        occurs_in(part, identity_section(b, uuid)),
    ensures
        occurs_in(part, opf_document(b, uuid)),
{
    let doc = opf_document(b, uuid);
    lemma_occurs_mid(opf_head(), identity_section(b, uuid), core_section(b) + calibre_section(b) + opf_tail());
    assert(doc =~= opf_head() + identity_section(b, uuid) + (core_section(b) + calibre_section(b) + opf_tail()));
    lemma_occurs_trans(part, identity_section(b, uuid), doc);
}

proof fn lemma_calibre_in_document(b: OpfMetadata, uuid: Seq<char>, part: Seq<char>)
    requires
        occurs_in(part, calibre_section(b)),
    ensures
        occurs_in(part, opf_document(b, uuid)),
{
    let doc = opf_document(b, uuid);
    lemma_occurs_mid(opf_head() + identity_section(b, uuid) + core_section(b), calibre_section(b), opf_tail());
    assert(doc =~= (opf_head() + identity_section(b, uuid) + core_section(b)) + calibre_section(b) + opf_tail());
    lemma_occurs_trans(part, calibre_section(b), doc);
}

proof fn lemma_core_piece(
    b: OpfMetadata,
    uuid: Seq<char>,
    part: Seq<char>,
    pre: Seq<char>,
    mid: Seq<char>,
    post: Seq<char>,
)
    requires
        core_section(b) == pre + mid + post,
        occurs_in(part, mid),
    ensures
        occurs_in(part, opf_document(b, uuid)),
{
    lemma_occurs_mid(pre, mid, post);
    lemma_occurs_trans(part, mid, core_section(b));
    lemma_core_in_document(b, uuid, part);
}

proof fn lemma_title_written(b: OpfMetadata, uuid: Seq<char>)
    ensures
        occurs_in("<dc:title>"@ + escaped_text(b.title@) + "</dc:title>"@, opf_document(b, uuid)),
{
    reveal_strlit("dc:title");
    reveal_strlit("<dc:title>");
    reveal_strlit("</dc:title>");
    let part = "<dc:title>"@ + escaped_text(b.title@) + "</dc:title>"@;
    let title = element_text("dc:title"@, b.title@, Seq::empty());
    assert("<dc:title>"@ =~= seq!['<'] + "dc:title"@ + seq!['>']);
    assert("</dc:title>"@ =~= seq!['<', '/'] + "dc:title"@ + seq!['>']);
    lemma_plain_element("dc:title"@, b.title@, "<dc:title>"@, "</dc:title>"@);
    let ident = identity_section(b, uuid);
    let idrest = ident.subrange(title.len() as int, ident.len() as int);
    assert(ident =~= Seq::empty() + title + idrest);
    lemma_occurs_mid(Seq::empty(), title, idrest);
    lemma_occurs_trans(part, title, ident);
    lemma_identity_in_document(b, uuid, part);
}

proof fn lemma_date_written(b: OpfMetadata, uuid: Seq<char>)
    ensures
        b.publication_date matches Some(d) ==> occurs_in(
            "<dc:date>"@ + escaped_text(d@) + "</dc:date>"@,
            opf_document(b, uuid),
        ),
{
    if let Some(d) = b.publication_date {
        reveal_strlit("dc:date");
        reveal_strlit("<dc:date>");
        reveal_strlit("</dc:date>");
        assert("<dc:date>"@ =~= seq!['<'] + "dc:date"@ + seq!['>']);
        assert("</dc:date>"@ =~= seq!['<', '/'] + "dc:date"@ + seq!['>']);
        lemma_plain_element("dc:date"@, d@, "<dc:date>"@, "</dc:date>"@);
        let ids = identifiers_text(b.identifiers@);
        let date = optional_element("dc:date"@, b.publication_date);
        let core = core_section(b);
        let rest = core.subrange((ids.len() + date.len()) as int, core.len() as int);
        assert(core =~= ids + date + rest);
        lemma_core_piece(b, uuid, "<dc:date>"@ + escaped_text(d@) + "</dc:date>"@, ids, date, rest);
    }
}

proof fn lemma_description_written(b: OpfMetadata, uuid: Seq<char>)
    ensures
        b.comments matches Some(c) ==> occurs_in(
            "<dc:description>"@ + escaped_text(c@) + "</dc:description>"@,
            opf_document(b, uuid),
        ),
{
    if let Some(c) = b.comments {
        reveal_strlit("dc:description");
        reveal_strlit("<dc:description>");
        reveal_strlit("</dc:description>");
        assert("<dc:description>"@ =~= seq!['<'] + "dc:description"@ + seq!['>']);
        assert("</dc:description>"@ =~= seq!['<', '/'] + "dc:description"@ + seq!['>']);
        lemma_plain_element("dc:description"@, c@, "<dc:description>"@, "</dc:description>"@);
        let pre = identifiers_text(b.identifiers@) + optional_element("dc:date"@, b.publication_date);
        let desc = optional_element("dc:description"@, b.comments);
        let core = core_section(b);
        let rest = core.subrange((pre.len() + desc.len()) as int, core.len() as int);
        assert(core =~= pre + desc + rest);
        lemma_core_piece(b, uuid, "<dc:description>"@ + escaped_text(c@) + "</dc:description>"@, pre, desc, rest);
    }
}

proof fn lemma_publisher_written(b: OpfMetadata, uuid: Seq<char>)
    ensures
        b.publisher matches Some(p) ==> occurs_in(
            "<dc:publisher>"@ + escaped_text(p.name@) + "</dc:publisher>"@,
            opf_document(b, uuid),
        ),
{
    if let Some(p) = b.publisher {
        reveal_strlit("dc:publisher");
        reveal_strlit("<dc:publisher>");
        reveal_strlit("</dc:publisher>");
        assert("<dc:publisher>"@ =~= seq!['<'] + "dc:publisher"@ + seq!['>']);
        assert("</dc:publisher>"@ =~= seq!['<', '/'] + "dc:publisher"@ + seq!['>']);
        lemma_plain_element("dc:publisher"@, p.name@, "<dc:publisher>"@, "</dc:publisher>"@);
        let pre = identifiers_text(b.identifiers@) + optional_element("dc:date"@, b.publication_date)
            + optional_element("dc:description"@, b.comments);
        let publ = element_text("dc:publisher"@, p.name@, Seq::empty());
        let post = languages_text(b.languages@) + tags_text(b.tags@);
        assert(core_section(b) =~= pre + publ + post);
        lemma_core_piece(b, uuid, "<dc:publisher>"@ + escaped_text(p.name@) + "</dc:publisher>"@, pre, publ, post);
    }
}

proof fn lemma_language_written(b: OpfMetadata, uuid: Seq<char>, k: int)
    requires
        0 <= k < b.languages@.len(),
    ensures
        occurs_in(
            "<dc:language>"@ + escaped_text(b.languages@[k].code@) + "</dc:language>"@,
            opf_document(b, uuid),
        ),
{
    reveal_strlit("dc:language");
    reveal_strlit("<dc:language>");
    reveal_strlit("</dc:language>");
    let part = "<dc:language>"@ + escaped_text(b.languages@[k].code@) + "</dc:language>"@;
    let e = element_text("dc:language"@, b.languages@[k].code@, Seq::empty());
    assert("<dc:language>"@ =~= seq!['<'] + "dc:language"@ + seq!['>']);
    assert("</dc:language>"@ =~= seq!['<', '/'] + "dc:language"@ + seq!['>']);
    lemma_plain_element("dc:language"@, b.languages@[k].code@, "<dc:language>"@, "</dc:language>"@);
    lemma_language_occurs(b.languages@, k);
    let langs = languages_text(b.languages@);
    lemma_occurs_trans(part, e, langs);
    let core = core_section(b);
    let pre = core.subrange(0, core.len() - tags_text(b.tags@).len() - langs.len());
    assert(core =~= pre + langs + tags_text(b.tags@));
    lemma_core_piece(b, uuid, part, pre, langs, tags_text(b.tags@));
}

proof fn lemma_tag_written(b: OpfMetadata, uuid: Seq<char>, k: int)
    requires
        0 <= k < b.tags@.len(),
    ensures
        occurs_in(
            "<dc:subject>"@ + escaped_text(b.tags@[k].name@) + "</dc:subject>"@,
            opf_document(b, uuid),
        ),
{
    reveal_strlit("dc:subject");
    reveal_strlit("<dc:subject>");
    reveal_strlit("</dc:subject>");
    let part = "<dc:subject>"@ + escaped_text(b.tags@[k].name@) + "</dc:subject>"@;
    let e = element_text("dc:subject"@, b.tags@[k].name@, Seq::empty());
    assert("<dc:subject>"@ =~= seq!['<'] + "dc:subject"@ + seq!['>']);
    assert("</dc:subject>"@ =~= seq!['<', '/'] + "dc:subject"@ + seq!['>']);
    lemma_plain_element("dc:subject"@, b.tags@[k].name@, "<dc:subject>"@, "</dc:subject>"@);
    lemma_tag_occurs(b.tags@, k);
    let tags = tags_text(b.tags@);
    lemma_occurs_trans(part, e, tags);
    let core = core_section(b);
    let pre = core.subrange(0, core.len() - tags.len());
    assert(core =~= pre + tags + Seq::empty());
    lemma_core_piece(b, uuid, part, pre, tags, Seq::empty());
}

/// A character that escaping writes as itself.
pub open spec fn plain_char(c: char) -> bool {
    xml_char(c) && c != '&' && c != '<' && c != '>' && c != '"' && c != '\''
}

/// Text made of plain characters is written as it stands, as text content
/// and as an attribute value.
pub proof fn lemma_plain_unescaped(s: Seq<char>)
    requires
        forall|j: int| 0 <= j < s.len() ==> plain_char(#[trigger] s[j]),
    ensures
        escaped_text(s) == s,
        escaped_attribute(s) == s,
    decreases s.len(),
{
    if s.len() > 0 {
        lemma_plain_unescaped(s.drop_last());
        assert(plain_char(s.last()));
        assert(s.drop_last().push(s.last()) =~= s);
    }
}

proof fn lemma_attributes_two(a: (Seq<char>, Seq<char>), b: (Seq<char>, Seq<char>))
    ensures
        attributes_text(seq![a, b]) == seq![' '] + a.0 + seq!['=', '"'] + escaped_attribute(a.1)
            + seq!['"'] + seq![' '] + b.0 + seq!['=', '"'] + escaped_attribute(b.1) + seq!['"'],
{
    assert(seq![a, b].drop_last() =~= seq![a]);
    assert(seq![a, b].last() == b);
    assert(seq![a].drop_last() =~= Seq::<(Seq<char>, Seq<char>)>::empty());
    assert(seq![a].last() == a);
    assert(attributes_text(Seq::<(Seq<char>, Seq<char>)>::empty()) == Seq::<char>::empty());
    assert(attributes_text(seq![a]) =~= Seq::<char>::empty() + seq![' '] + a.0 + seq!['=', '"']
        + escaped_attribute(a.1) + seq!['"']);
    assert(attributes_text(seq![a, b]) =~= seq![' '] + a.0 + seq!['=', '"'] + escaped_attribute(a.1)
        + seq!['"'] + seq![' '] + b.0 + seq!['=', '"'] + escaped_attribute(b.1) + seq!['"']);
}

proof fn lemma_attributes_one(a: (Seq<char>, Seq<char>))
    ensures
        attributes_text(seq![a]) == seq![' '] + a.0 + seq!['=', '"'] + escaped_attribute(a.1)
            + seq!['"'],
{
    assert(seq![a].drop_last() =~= Seq::<(Seq<char>, Seq<char>)>::empty());
    assert(seq![a].last() == a);
    assert(attributes_text(Seq::<(Seq<char>, Seq<char>)>::empty()) == Seq::<char>::empty());
    assert(attributes_text(seq![a]) =~= Seq::<char>::empty() + seq![' '] + a.0 + seq!['=', '"']
        + escaped_attribute(a.1) + seq!['"']);
}

proof fn lemma_creator_occurs(authors: Seq<Author>, k: int)
    requires
        0 <= k < authors.len(),
    ensures
        occurs_in(
            element_text(
                "dc:creator"@,
                authors[k].name@,
                seq![("opf:file-as"@, file_as(authors[k])), ("opf:role"@, "aut"@)],
            ),
            creators_text(authors),
        ),
    decreases authors.len(),
{
    let e = element_text(
        "dc:creator"@,
        authors[k].name@,
        seq![("opf:file-as"@, file_as(authors[k])), ("opf:role"@, "aut"@)],
    );
    let prev = creators_text(authors.drop_last());
    let last = element_text(
        "dc:creator"@,
        authors.last().name@,
        seq![("opf:file-as"@, file_as(authors.last())), ("opf:role"@, "aut"@)],
    );
    assert(creators_text(authors) =~= prev + last + Seq::empty());
    if k == authors.len() - 1 {
        lemma_occurs_mid(prev, last, Seq::empty());
    } else {
        lemma_creator_occurs(authors.drop_last(), k);
        assert(authors.drop_last()[k] == authors[k]);
        lemma_occurs_mid(Seq::empty(), prev, last);
        assert(Seq::<char>::empty() + prev + last =~= creators_text(authors));
        lemma_occurs_trans(e, prev, creators_text(authors));
    }
}

proof fn lemma_identifier_occurs(identifiers: Seq<Identifier>, k: int)
    requires
        0 <= k < identifiers.len(),
    ensures
        occurs_in(
            element_text(
                "dc:identifier"@,
                identifiers[k].value@,
                seq![("opf:scheme"@, identifiers[k].kind@.map_values(|c: char| ascii_upper(c)))],
            ),
            identifiers_text(identifiers),
        ),
    decreases identifiers.len(),
{
    let e = element_text(
        "dc:identifier"@,
        identifiers[k].value@,
        seq![("opf:scheme"@, identifiers[k].kind@.map_values(|c: char| ascii_upper(c)))],
    );
    let prev = identifiers_text(identifiers.drop_last());
    let last = element_text(
        "dc:identifier"@,
        identifiers.last().value@,
        seq![("opf:scheme"@, identifiers.last().kind@.map_values(|c: char| ascii_upper(c)))],
    );
    assert(identifiers_text(identifiers) =~= prev + last + Seq::empty());
    if k == identifiers.len() - 1 {
        lemma_occurs_mid(prev, last, Seq::empty());
    } else {
        lemma_identifier_occurs(identifiers.drop_last(), k);
        assert(identifiers.drop_last()[k] == identifiers[k]);
        lemma_occurs_mid(Seq::empty(), prev, last);
        assert(Seq::<char>::empty() + prev + last =~= identifiers_text(identifiers));
        lemma_occurs_trans(e, prev, identifiers_text(identifiers));
    }
}

proof fn lemma_author_written(b: OpfMetadata, uuid: Seq<char>, k: int)
    requires
        0 <= k < b.authors@.len(),
    ensures
        occurs_in(
            "<dc:creator opf:file-as=\""@ + escaped_attribute(file_as(b.authors@[k]))
                + "\" opf:role=\"aut\">"@ + escaped_text(b.authors@[k].name@) + "</dc:creator>"@,
            opf_document(b, uuid),
        ),
{
    let a = b.authors@[k];
    reveal_strlit("dc:creator");
    reveal_strlit("opf:file-as");
    reveal_strlit("opf:role");
    reveal_strlit("aut");
    reveal_strlit("<dc:creator opf:file-as=\"");
    reveal_strlit("\" opf:role=\"aut\">");
    reveal_strlit("</dc:creator>");
    lemma_plain_unescaped("aut"@);
    let attrs = seq![("opf:file-as"@, file_as(a)), ("opf:role"@, "aut"@)];
    lemma_attributes_two(("opf:file-as"@, file_as(a)), ("opf:role"@, "aut"@));
    let part = "<dc:creator opf:file-as=\""@ + escaped_attribute(file_as(a)) + "\" opf:role=\"aut\">"@
        + escaped_text(a.name@) + "</dc:creator>"@;
    assert(part =~= element_markup("dc:creator"@, a.name@, attrs));
    lemma_occurs_mid(Seq::empty(), part, Seq::empty());
    assert(Seq::<char>::empty() + part + Seq::<char>::empty() =~= part);
    lemma_element_occurs(part, "dc:creator"@, a.name@, attrs);
    lemma_creator_occurs(b.authors@, k);
    let creators = creators_text(b.authors@);
    lemma_occurs_trans(part, element_text("dc:creator"@, a.name@, attrs), creators);
    let title = element_text("dc:title"@, b.title@, Seq::empty());
    let ident = identity_section(b, uuid);
    let rest = ident.subrange((title.len() + creators.len()) as int, ident.len() as int);
    assert(ident =~= title + creators + rest);
    lemma_occurs_mid(title, creators, rest);
    lemma_occurs_trans(part, creators, ident);
    lemma_identity_in_document(b, uuid, part);
}

proof fn lemma_identifier_written(b: OpfMetadata, uuid: Seq<char>, k: int)
    requires
        0 <= k < b.identifiers@.len(),
    ensures
        occurs_in(
            "<dc:identifier opf:scheme=\""@ + escaped_attribute(
                b.identifiers@[k].kind@.map_values(|c: char| ascii_upper(c)),
            ) + "\">"@ + escaped_text(b.identifiers@[k].value@) + "</dc:identifier>"@,
            opf_document(b, uuid),
        ),
{
    let x = b.identifiers@[k];
    let scheme = x.kind@.map_values(|c: char| ascii_upper(c));
    reveal_strlit("dc:identifier");
    reveal_strlit("opf:scheme");
    reveal_strlit("<dc:identifier opf:scheme=\"");
    reveal_strlit("\">");
    reveal_strlit("</dc:identifier>");
    let attrs = seq![("opf:scheme"@, scheme)];
    lemma_attributes_one(("opf:scheme"@, scheme));
    let part = "<dc:identifier opf:scheme=\""@ + escaped_attribute(scheme) + "\">"@ + escaped_text(
        x.value@,
    ) + "</dc:identifier>"@;
    assert(part =~= element_markup("dc:identifier"@, x.value@, attrs));
    lemma_occurs_mid(Seq::empty(), part, Seq::empty());
    assert(Seq::<char>::empty() + part + Seq::<char>::empty() =~= part);
    lemma_element_occurs(part, "dc:identifier"@, x.value@, attrs);
    lemma_identifier_occurs(b.identifiers@, k);
    let ids = identifiers_text(b.identifiers@);
    lemma_occurs_trans(part, element_text("dc:identifier"@, x.value@, attrs), ids);
    let core = core_section(b);
    let rest = core.subrange(ids.len() as int, core.len() as int);
    assert(core =~= Seq::empty() + ids + rest);
    lemma_core_piece(b, uuid, part, Seq::empty(), ids, rest);
}

proof fn lemma_uuid_written(b: OpfMetadata, uuid: Seq<char>)
    ensures
        occurs_in(
            "<dc:identifier id=\"uuid_id\" opf:scheme=\"uuid\">"@ + escaped_text(uuid)
                + "</dc:identifier>"@,
            opf_document(b, uuid),
        ),
{
    reveal_strlit("dc:identifier");
    reveal_strlit("id");
    reveal_strlit("uuid_id");
    reveal_strlit("opf:scheme");
    reveal_strlit("uuid");
    reveal_strlit("<dc:identifier id=\"uuid_id\" opf:scheme=\"uuid\">");
    reveal_strlit("</dc:identifier>");
    lemma_plain_unescaped("uuid_id"@);
    lemma_plain_unescaped("uuid"@);
    let attrs = seq![("id"@, "uuid_id"@), ("opf:scheme"@, "uuid"@)];
    lemma_attributes_two(("id"@, "uuid_id"@), ("opf:scheme"@, "uuid"@));
    let part = "<dc:identifier id=\"uuid_id\" opf:scheme=\"uuid\">"@ + escaped_text(uuid)
        + "</dc:identifier>"@;
    assert(part =~= element_markup("dc:identifier"@, uuid, attrs));
    lemma_occurs_mid(Seq::empty(), part, Seq::empty());
    assert(Seq::<char>::empty() + part + Seq::<char>::empty() =~= part);
    lemma_element_occurs(part, "dc:identifier"@, uuid, attrs);
    let e = element_text("dc:identifier"@, uuid, attrs);
    let ident = identity_section(b, uuid);
    let pre = ident.subrange(0, ident.len() - e.len());
    assert(ident =~= pre + e + Seq::empty());
    lemma_occurs_mid(pre, e, Seq::empty());
    lemma_occurs_trans(part, e, ident);
    lemma_identity_in_document(b, uuid, part);
}

proof fn lemma_book_id_written(b: OpfMetadata, uuid: Seq<char>)
    ensures
        occurs_in(
            "<dc:identifier opf:scheme=\"calibre\">"@ + escaped_text(decimal(b.id@ as int))
                + "</dc:identifier>"@,
            opf_document(b, uuid),
        ),
{
    reveal_strlit("dc:identifier");
    reveal_strlit("opf:scheme");
    reveal_strlit("calibre");
    reveal_strlit("<dc:identifier opf:scheme=\"calibre\">");
    reveal_strlit("</dc:identifier>");
    lemma_plain_unescaped("calibre"@);
    let attrs = seq![("opf:scheme"@, "calibre"@)];
    lemma_attributes_one(("opf:scheme"@, "calibre"@));
    let id = decimal(b.id@ as int);
    let part = "<dc:identifier opf:scheme=\"calibre\">"@ + escaped_text(id) + "</dc:identifier>"@;
    assert(part =~= element_markup("dc:identifier"@, id, attrs));
    lemma_occurs_mid(Seq::empty(), part, Seq::empty());
    assert(Seq::<char>::empty() + part + Seq::<char>::empty() =~= part);
    lemma_element_occurs(part, "dc:identifier"@, id, attrs);
    let e = element_text("dc:identifier"@, id, attrs);
    let u = element_text("dc:identifier"@, uuid, seq![("id"@, "uuid_id"@), ("opf:scheme"@, "uuid"@)]);
    let ident = identity_section(b, uuid);
    let pre = ident.subrange(0, ident.len() - u.len() - e.len());
    assert(ident =~= pre + e + u);
    lemma_occurs_mid(pre, e, u);
    lemma_occurs_trans(part, e, ident);
    lemma_identity_in_document(b, uuid, part);
}

/// Who wrote the book and how it is identified are written into its
/// document: each author as a `dc:creator` filed under its sort (its name
/// when it has none), the book's ID and UUID, and each external
/// identifier with its scheme in upper case.
pub proof fn lemma_document_holds_identity(b: OpfMetadata, uuid: Seq<char>)
    ensures
        forall|k: int|
            0 <= k < b.authors@.len() ==> occurs_in(
                "<dc:creator opf:file-as=\""@ + escaped_attribute(file_as(#[trigger] b.authors@[k]))
                    + "\" opf:role=\"aut\">"@ + escaped_text(b.authors@[k].name@)
                    + "</dc:creator>"@,
                opf_document(b, uuid),
            ),
        occurs_in(
            "<dc:identifier opf:scheme=\"calibre\">"@ + escaped_text(decimal(b.id@ as int))
                + "</dc:identifier>"@,
            opf_document(b, uuid),
        ),
        occurs_in(
            "<dc:identifier id=\"uuid_id\" opf:scheme=\"uuid\">"@ + escaped_text(uuid)
                + "</dc:identifier>"@,
            opf_document(b, uuid),
        ),
        forall|k: int|
            0 <= k < b.identifiers@.len() ==> occurs_in(
                "<dc:identifier opf:scheme=\""@ + escaped_attribute(
                    (#[trigger] b.identifiers@[k]).kind@.map_values(|c: char| ascii_upper(c)),
                ) + "\">"@ + escaped_text(b.identifiers@[k].value@) + "</dc:identifier>"@,
                opf_document(b, uuid),
            ),
{
    assert forall|k: int| 0 <= k < b.authors@.len() implies occurs_in(
        "<dc:creator opf:file-as=\""@ + escaped_attribute(file_as(#[trigger] b.authors@[k]))
            + "\" opf:role=\"aut\">"@ + escaped_text(b.authors@[k].name@) + "</dc:creator>"@,
        opf_document(b, uuid),
    ) by {
        lemma_author_written(b, uuid, k);
    }
    lemma_book_id_written(b, uuid);
    lemma_uuid_written(b, uuid);
    assert forall|k: int| 0 <= k < b.identifiers@.len() implies occurs_in(
        "<dc:identifier opf:scheme=\""@ + escaped_attribute(
            (#[trigger] b.identifiers@[k]).kind@.map_values(|c: char| ascii_upper(c)),
        ) + "\">"@ + escaped_text(b.identifiers@[k].value@) + "</dc:identifier>"@,
        opf_document(b, uuid),
    ) by {
        lemma_identifier_written(b, uuid, k);
    }
}

proof fn lemma_occurs_left(a: Seq<char>, b: Seq<char>)
    ensures
        occurs_in(a, a + b),
{
    lemma_occurs_mid(Seq::empty(), a, b);
    assert(Seq::<char>::empty() + a + b =~= a + b);
}

proof fn lemma_occurs_right(a: Seq<char>, b: Seq<char>)
    ensures
        occurs_in(b, a + b),
{
    lemma_occurs_mid(a, b, Seq::empty());
    assert(a + b + Seq::<char>::empty() =~= a + b);
}

proof fn lemma_meta_part(open: Seq<char>, name: Seq<char>, content: Seq<char>)
    requires
        forall|j: int| 0 <= j < name.len() ==> plain_char(#[trigger] name[j]),
        open == "<meta name=\""@ + name + "\" content=\""@,
    ensures
        occurs_in(open + escaped_attribute(content) + "\"/>"@, meta_text(name, content)),
{
    reveal_strlit("    <meta name=\"");
    reveal_strlit("<meta name=\"");
    reveal_strlit("\"/>\n");
    reveal_strlit("\"/>");
    lemma_plain_unescaped(name);
    let part = open + escaped_attribute(content) + "\"/>"@;
    let m = meta_text(name, content);
    assert(m =~= seq![' ', ' ', ' ', ' '] + part + seq!['\n']);
    lemma_occurs_mid(seq![' ', ' ', ' ', ' '], part, seq!['\n']);
}

proof fn lemma_series_rating_in_document(b: OpfMetadata, uuid: Seq<char>, part: Seq<char>)
    requires
        occurs_in(part, series_rating_text(b)),
    ensures
        occurs_in(part, opf_document(b, uuid)),
{
    lemma_occurs_left(series_rating_text(b), sorts_text(b));
    lemma_occurs_trans(part, series_rating_text(b), calibre_section(b));
    lemma_calibre_in_document(b, uuid, part);
}

proof fn lemma_sorts_in_document(b: OpfMetadata, uuid: Seq<char>, part: Seq<char>)
    requires
        occurs_in(part, sorts_text(b)),
    ensures
        occurs_in(part, opf_document(b, uuid)),
{
    lemma_occurs_right(series_rating_text(b), sorts_text(b));
    lemma_occurs_trans(part, sorts_text(b), calibre_section(b));
    lemma_calibre_in_document(b, uuid, part);
}

proof fn lemma_series_name_written(b: OpfMetadata, uuid: Seq<char>)
    ensures
        b.series matches Some(s) ==> occurs_in(
            "<meta name=\"calibre:series\" content=\""@ + escaped_attribute(s.name@) + "\"/>"@,
            opf_document(b, uuid),
        ),
{
    if let Some(s) = b.series {
        let part = "<meta name=\"calibre:series\" content=\""@ + escaped_attribute(s.name@) + "\"/>"@;
        assert("<meta name=\"calibre:series\" content=\""@ == "<meta name=\""@ + "calibre:series"@ + "\" content=\""@ && forall|j: int|
            0 <= j < "calibre:series"@.len() ==> plain_char(#[trigger] "calibre:series"@[j])) by {
            reveal_strlit("<meta name=\"");
            reveal_strlit("\" content=\"");
            reveal_strlit("calibre:series");
            reveal_strlit("<meta name=\"calibre:series\" content=\"");
            assert("<meta name=\"calibre:series\" content=\""@ =~= "<meta name=\""@ + "calibre:series"@ + "\" content=\""@);
        }
        lemma_meta_part("<meta name=\"calibre:series\" content=\""@, "calibre:series"@, s.name@);
        let m1 = meta_text("calibre:series"@, s.name@);
        let m2 = meta_text("calibre:series_index"@, s.index@);
        let rating_part = match b.rating {
            Some(r) => meta_text("calibre:rating"@, decimal(r@ as int)),
            None => Seq::empty(),
        };
        assert(series_rating_text(b) == (m1 + m2) + rating_part);
        lemma_occurs_left(m1 + m2, rating_part);
        lemma_occurs_left(m1, m2);
        lemma_occurs_trans(part, m1, m1 + m2);
        lemma_occurs_trans(part, m1 + m2, series_rating_text(b));
        lemma_series_rating_in_document(b, uuid, part);
    }
}

proof fn lemma_series_index_written(b: OpfMetadata, uuid: Seq<char>)
    ensures
        b.series matches Some(s) ==> occurs_in(
            "<meta name=\"calibre:series_index\" content=\""@ + escaped_attribute(s.index@) + "\"/>"@,
            opf_document(b, uuid),
        ),
{
    if let Some(s) = b.series {
        let part = "<meta name=\"calibre:series_index\" content=\""@ + escaped_attribute(s.index@) + "\"/>"@;
        assert("<meta name=\"calibre:series_index\" content=\""@ == "<meta name=\""@ + "calibre:series_index"@ + "\" content=\""@ && forall|j: int|
            0 <= j < "calibre:series_index"@.len() ==> plain_char(#[trigger] "calibre:series_index"@[j])) by {
            reveal_strlit("<meta name=\"");
            reveal_strlit("\" content=\"");
            reveal_strlit("calibre:series_index");
            reveal_strlit("<meta name=\"calibre:series_index\" content=\"");
            assert("<meta name=\"calibre:series_index\" content=\""@ =~= "<meta name=\""@ + "calibre:series_index"@ + "\" content=\""@);
        }
        lemma_meta_part("<meta name=\"calibre:series_index\" content=\""@, "calibre:series_index"@, s.index@);
        let m1 = meta_text("calibre:series"@, s.name@);
        let m2 = meta_text("calibre:series_index"@, s.index@);
        let rating_part = match b.rating {
            Some(r) => meta_text("calibre:rating"@, decimal(r@ as int)),
            None => Seq::empty(),
        };
        assert(series_rating_text(b) == (m1 + m2) + rating_part);
        lemma_occurs_left(m1 + m2, rating_part);
        lemma_occurs_right(m1, m2);
        lemma_occurs_trans(part, m2, m1 + m2);
        lemma_occurs_trans(part, m1 + m2, series_rating_text(b));
        lemma_series_rating_in_document(b, uuid, part);
    }
}

proof fn lemma_rating_written(b: OpfMetadata, uuid: Seq<char>)
    ensures
        b.rating matches Some(r) ==> occurs_in(
            "<meta name=\"calibre:rating\" content=\""@ + escaped_attribute(decimal(r@ as int)) + "\"/>"@,
            opf_document(b, uuid),
        ),
{
    if let Some(r) = b.rating {
        let part = "<meta name=\"calibre:rating\" content=\""@ + escaped_attribute(decimal(r@ as int)) + "\"/>"@;
        assert("<meta name=\"calibre:rating\" content=\""@ == "<meta name=\""@ + "calibre:rating"@ + "\" content=\""@ && forall|j: int|
            0 <= j < "calibre:rating"@.len() ==> plain_char(#[trigger] "calibre:rating"@[j])) by {
            reveal_strlit("<meta name=\"");
            reveal_strlit("\" content=\"");
            reveal_strlit("calibre:rating");
            reveal_strlit("<meta name=\"calibre:rating\" content=\"");
            assert("<meta name=\"calibre:rating\" content=\""@ =~= "<meta name=\""@ + "calibre:rating"@ + "\" content=\""@);
        }
        lemma_meta_part("<meta name=\"calibre:rating\" content=\""@, "calibre:rating"@, decimal(r@ as int));
        let series_part = match b.series {
            Some(s) => meta_text("calibre:series"@, s.name@) + meta_text("calibre:series_index"@, s.index@),
            None => Seq::empty(),
        };
        let m = meta_text("calibre:rating"@, decimal(r@ as int));
        assert(series_rating_text(b) == series_part + m);
        lemma_occurs_right(series_part, m);
        lemma_occurs_trans(part, m, series_rating_text(b));
        lemma_series_rating_in_document(b, uuid, part);
    }
}

proof fn lemma_timestamp_written(b: OpfMetadata, uuid: Seq<char>)
    ensures
        b.timestamp matches Some(t) ==> occurs_in(
            "<meta name=\"calibre:timestamp\" content=\""@ + escaped_attribute(t@) + "\"/>"@,
            opf_document(b, uuid),
        ),
{
    if let Some(t) = b.timestamp {
        let part = "<meta name=\"calibre:timestamp\" content=\""@ + escaped_attribute(t@) + "\"/>"@;
        assert("<meta name=\"calibre:timestamp\" content=\""@ == "<meta name=\""@ + "calibre:timestamp"@ + "\" content=\""@ && forall|j: int|
            0 <= j < "calibre:timestamp"@.len() ==> plain_char(#[trigger] "calibre:timestamp"@[j])) by {
            reveal_strlit("<meta name=\"");
            reveal_strlit("\" content=\"");
            reveal_strlit("calibre:timestamp");
            reveal_strlit("<meta name=\"calibre:timestamp\" content=\"");
            assert("<meta name=\"calibre:timestamp\" content=\""@ =~= "<meta name=\""@ + "calibre:timestamp"@ + "\" content=\""@);
        }
        lemma_meta_part("<meta name=\"calibre:timestamp\" content=\""@, "calibre:timestamp"@, t@);
        let ts = optional_meta("calibre:timestamp"@, b.timestamp);
        let ts2 = optional_meta("calibre:title_sort"@, b.sort);
        let as2 = optional_meta("calibre:author_sort"@, b.author_sort);
        let lm = meta_text("calibre:last_modified"@, b.last_modified@);
        assert(sorts_text(b) == ((ts + ts2) + as2) + lm);
        lemma_occurs_left(ts, ts2);
        lemma_occurs_left(ts + ts2, as2);
        lemma_occurs_left((ts + ts2) + as2, lm);
        lemma_occurs_trans(part, ts, ts + ts2);
        lemma_occurs_trans(part, ts + ts2, (ts + ts2) + as2);
        lemma_occurs_trans(part, (ts + ts2) + as2, sorts_text(b));
        lemma_sorts_in_document(b, uuid, part);
    }
}

proof fn lemma_title_sort_written(b: OpfMetadata, uuid: Seq<char>)
    ensures
        b.sort matches Some(t) ==> occurs_in(
            "<meta name=\"calibre:title_sort\" content=\""@ + escaped_attribute(t@) + "\"/>"@,
            opf_document(b, uuid),
        ),
{
    if let Some(t) = b.sort {
        let part = "<meta name=\"calibre:title_sort\" content=\""@ + escaped_attribute(t@) + "\"/>"@;
        assert("<meta name=\"calibre:title_sort\" content=\""@ == "<meta name=\""@ + "calibre:title_sort"@ + "\" content=\""@ && forall|j: int|
            0 <= j < "calibre:title_sort"@.len() ==> plain_char(#[trigger] "calibre:title_sort"@[j])) by {
            reveal_strlit("<meta name=\"");
            reveal_strlit("\" content=\"");
            reveal_strlit("calibre:title_sort");
            reveal_strlit("<meta name=\"calibre:title_sort\" content=\"");
            assert("<meta name=\"calibre:title_sort\" content=\""@ =~= "<meta name=\""@ + "calibre:title_sort"@ + "\" content=\""@);
        }
        lemma_meta_part("<meta name=\"calibre:title_sort\" content=\""@, "calibre:title_sort"@, t@);
        let ts = optional_meta("calibre:timestamp"@, b.timestamp);
        let ts2 = optional_meta("calibre:title_sort"@, b.sort);
        let as2 = optional_meta("calibre:author_sort"@, b.author_sort);
        let lm = meta_text("calibre:last_modified"@, b.last_modified@);
        assert(sorts_text(b) == ((ts + ts2) + as2) + lm);
        lemma_occurs_right(ts, ts2);
        lemma_occurs_left(ts + ts2, as2);
        lemma_occurs_left((ts + ts2) + as2, lm);
        lemma_occurs_trans(part, ts2, ts + ts2);
        lemma_occurs_trans(part, ts + ts2, (ts + ts2) + as2);
        lemma_occurs_trans(part, (ts + ts2) + as2, sorts_text(b));
        lemma_sorts_in_document(b, uuid, part);
    }
}

proof fn lemma_author_sort_written(b: OpfMetadata, uuid: Seq<char>)
    ensures
        b.author_sort matches Some(t) ==> occurs_in(
            "<meta name=\"calibre:author_sort\" content=\""@ + escaped_attribute(t@) + "\"/>"@,
            opf_document(b, uuid),
        ),
{
    if let Some(t) = b.author_sort {
        let part = "<meta name=\"calibre:author_sort\" content=\""@ + escaped_attribute(t@) + "\"/>"@;
        assert("<meta name=\"calibre:author_sort\" content=\""@ == "<meta name=\""@ + "calibre:author_sort"@ + "\" content=\""@ && forall|j: int|
            0 <= j < "calibre:author_sort"@.len() ==> plain_char(#[trigger] "calibre:author_sort"@[j])) by {
            reveal_strlit("<meta name=\"");
            reveal_strlit("\" content=\"");
            reveal_strlit("calibre:author_sort");
            reveal_strlit("<meta name=\"calibre:author_sort\" content=\"");
            assert("<meta name=\"calibre:author_sort\" content=\""@ =~= "<meta name=\""@ + "calibre:author_sort"@ + "\" content=\""@);
        }
        lemma_meta_part("<meta name=\"calibre:author_sort\" content=\""@, "calibre:author_sort"@, t@);
        let ts = optional_meta("calibre:timestamp"@, b.timestamp);
        let ts2 = optional_meta("calibre:title_sort"@, b.sort);
        let as2 = optional_meta("calibre:author_sort"@, b.author_sort);
        let lm = meta_text("calibre:last_modified"@, b.last_modified@);
        assert(sorts_text(b) == ((ts + ts2) + as2) + lm);
        lemma_occurs_right(ts + ts2, as2);
        lemma_occurs_left((ts + ts2) + as2, lm);
        lemma_occurs_trans(part, as2, (ts + ts2) + as2);
        lemma_occurs_trans(part, (ts + ts2) + as2, sorts_text(b));
        lemma_sorts_in_document(b, uuid, part);
    }
}

proof fn lemma_last_modified_written(b: OpfMetadata, uuid: Seq<char>)
    ensures
        occurs_in(
            "<meta name=\"calibre:last_modified\" content=\""@ + escaped_attribute(b.last_modified@) + "\"/>"@,
            opf_document(b, uuid),
        ),
{
    let part = "<meta name=\"calibre:last_modified\" content=\""@ + escaped_attribute(b.last_modified@) + "\"/>"@;
    assert("<meta name=\"calibre:last_modified\" content=\""@ == "<meta name=\""@ + "calibre:last_modified"@ + "\" content=\""@ && forall|j: int|
        0 <= j < "calibre:last_modified"@.len() ==> plain_char(#[trigger] "calibre:last_modified"@[j])) by {
        reveal_strlit("<meta name=\"");
        reveal_strlit("\" content=\"");
        reveal_strlit("calibre:last_modified");
        reveal_strlit("<meta name=\"calibre:last_modified\" content=\"");
        assert("<meta name=\"calibre:last_modified\" content=\""@ =~= "<meta name=\""@ + "calibre:last_modified"@ + "\" content=\""@);
    }
    lemma_meta_part("<meta name=\"calibre:last_modified\" content=\""@, "calibre:last_modified"@, b.last_modified@);
    let ts = optional_meta("calibre:timestamp"@, b.timestamp);
    let ts2 = optional_meta("calibre:title_sort"@, b.sort);
    let as2 = optional_meta("calibre:author_sort"@, b.author_sort);
    let lm = meta_text("calibre:last_modified"@, b.last_modified@);
    assert(sorts_text(b) == ((ts + ts2) + as2) + lm);
    lemma_occurs_right((ts + ts2) + as2, lm);
    lemma_occurs_trans(part, lm, sorts_text(b));
    lemma_sorts_in_document(b, uuid, part);
}

/// Calibre's own fields of the book are written into its document as
/// `meta` elements: the series and its index, the rating, the date added,
/// the title sort, the author sort and the last modification time.
pub proof fn lemma_document_holds_calibre_fields(b: OpfMetadata, uuid: Seq<char>)
    ensures
        b.series matches Some(s) ==> occurs_in(
            "<meta name=\"calibre:series\" content=\""@ + escaped_attribute(s.name@) + "\"/>"@,
            opf_document(b, uuid),
        ),
        b.series matches Some(s) ==> occurs_in(
            "<meta name=\"calibre:series_index\" content=\""@ + escaped_attribute(s.index@) + "\"/>"@,
            opf_document(b, uuid),
        ),
        b.rating matches Some(r) ==> occurs_in(
            "<meta name=\"calibre:rating\" content=\""@ + escaped_attribute(decimal(r@ as int)) + "\"/>"@,
            opf_document(b, uuid),
        ),
        b.timestamp matches Some(t) ==> occurs_in(
            "<meta name=\"calibre:timestamp\" content=\""@ + escaped_attribute(t@) + "\"/>"@,
            opf_document(b, uuid),
        ),
        b.sort matches Some(t) ==> occurs_in(
            "<meta name=\"calibre:title_sort\" content=\""@ + escaped_attribute(t@) + "\"/>"@,
            opf_document(b, uuid),
        ),
        b.author_sort matches Some(t) ==> occurs_in(
            "<meta name=\"calibre:author_sort\" content=\""@ + escaped_attribute(t@) + "\"/>"@,
            opf_document(b, uuid),
        ),
        occurs_in(
            "<meta name=\"calibre:last_modified\" content=\""@ + escaped_attribute(b.last_modified@) + "\"/>"@,
            opf_document(b, uuid),
        ),
{
    lemma_series_name_written(b, uuid);
    lemma_series_index_written(b, uuid);
    lemma_rating_written(b, uuid);
    lemma_timestamp_written(b, uuid);
    lemma_title_sort_written(b, uuid);
    lemma_author_sort_written(b, uuid);
    lemma_last_modified_written(b, uuid);
}

/// Every Dublin Core field the book has is written into its document: the
/// title, the publication date, the description, the publisher, each
/// language and each tag, as an element of that name holding the escaped
/// value.
pub proof fn lemma_document_holds_core_fields(b: OpfMetadata, uuid: Seq<char>)
    ensures
        occurs_in("<dc:title>"@ + escaped_text(b.title@) + "</dc:title>"@, opf_document(b, uuid)),
        b.publication_date matches Some(d) ==> occurs_in(
            "<dc:date>"@ + escaped_text(d@) + "</dc:date>"@,
            opf_document(b, uuid),
        ),
        b.comments matches Some(c) ==> occurs_in(
            "<dc:description>"@ + escaped_text(c@) + "</dc:description>"@,
            opf_document(b, uuid),
        ),
        b.publisher matches Some(p) ==> occurs_in(
            "<dc:publisher>"@ + escaped_text(p.name@) + "</dc:publisher>"@,
            opf_document(b, uuid),
        ),
        forall|k: int|
            0 <= k < b.languages@.len() ==> occurs_in(
                "<dc:language>"@ + escaped_text(#[trigger] b.languages@[k].code@)
                    + "</dc:language>"@,
                opf_document(b, uuid),
            ),
        forall|k: int|
            0 <= k < b.tags@.len() ==> occurs_in(
                "<dc:subject>"@ + escaped_text(#[trigger] b.tags@[k].name@) + "</dc:subject>"@,
                opf_document(b, uuid),
            ),
{
    lemma_title_written(b, uuid);
    lemma_date_written(b, uuid);
    lemma_description_written(b, uuid);
    lemma_publisher_written(b, uuid);
    assert forall|k: int| 0 <= k < b.languages@.len() implies occurs_in(
        "<dc:language>"@ + escaped_text(#[trigger] b.languages@[k].code@) + "</dc:language>"@,
        opf_document(b, uuid),
    ) by {
        lemma_language_written(b, uuid, k);
    }
    assert forall|k: int| 0 <= k < b.tags@.len() implies occurs_in(
        "<dc:subject>"@ + escaped_text(#[trigger] b.tags@[k].name@) + "</dc:subject>"@,
        opf_document(b, uuid),
    ) by {
        lemma_tag_written(b, uuid, k);
    }
}

fn push_creators(out: &mut Vec<char>, authors: &Vec<Author>)
    ensures
        final(out)@ == old(out)@ + creators_text(authors@),
{
    let mut i: usize = 0;
    while i < authors.len()
        invariant
            i <= authors@.len(),
            out@ == old(out)@ + creators_text(authors@.take(i as int)),
        decreases authors@.len() - i,
    {
        let a = &authors[i];
        let sort: &str = match &a.sort {
            Some(s) => s.as_str(),
            None => a.name.as_str(),
        };
        element2(out, "dc:creator", a.name.as_str(), "opf:file-as", sort, "opf:role", "aut");
        i = i + 1;
        assert(authors@.take(i as int).drop_last() =~= authors@.take(i - 1));
        assert(authors@.take(i as int).last() == authors@[i - 1]);
        assert(out@ =~= old(out)@ + creators_text(authors@.take(i as int)));
    }
    assert(authors@.take(authors@.len() as int) =~= authors@);
}

fn push_identifiers(out: &mut Vec<char>, identifiers: &Vec<Identifier>)
    ensures
        final(out)@ == old(out)@ + identifiers_text(identifiers@),
{
    let mut i: usize = 0;
    while i < identifiers.len()
        invariant
            i <= identifiers@.len(),
            out@ == old(out)@ + identifiers_text(identifiers@.take(i as int)),
        decreases identifiers@.len() - i,
    {
        let id = &identifiers[i];
        let scheme = string_of(&to_ascii_upper(&chars_of(id.kind.as_str())));
        element1(out, "dc:identifier", id.value.as_str(), "opf:scheme", scheme.as_str());
        i = i + 1;
        assert(identifiers@.take(i as int).drop_last() =~= identifiers@.take(i - 1));
        assert(identifiers@.take(i as int).last() == identifiers@[i - 1]);
        assert(out@ =~= old(out)@ + identifiers_text(identifiers@.take(i as int)));
    }
    assert(identifiers@.take(identifiers@.len() as int) =~= identifiers@);
}

fn push_languages(out: &mut Vec<char>, languages: &Vec<Language>)
    ensures
        final(out)@ == old(out)@ + languages_text(languages@),
{
    let mut i: usize = 0;
    while i < languages.len()
        invariant
            i <= languages@.len(),
            out@ == old(out)@ + languages_text(languages@.take(i as int)),
        decreases languages@.len() - i,
    {
        element0(out, "dc:language", languages[i].code.as_str());
        i = i + 1;
        assert(languages@.take(i as int).drop_last() =~= languages@.take(i - 1));
        assert(languages@.take(i as int).last() == languages@[i - 1]);
        assert(out@ =~= old(out)@ + languages_text(languages@.take(i as int)));
    }
    assert(languages@.take(languages@.len() as int) =~= languages@);
}

fn push_tags(out: &mut Vec<char>, tags: &Vec<Tag>)
    ensures
        final(out)@ == old(out)@ + tags_text(tags@),
{
    let mut i: usize = 0;
    while i < tags.len()
        invariant
            i <= tags@.len(),
            out@ == old(out)@ + tags_text(tags@.take(i as int)),
        decreases tags@.len() - i,
    {
        element0(out, "dc:subject", tags[i].name.as_str());
        i = i + 1;
        assert(tags@.take(i as int).drop_last() =~= tags@.take(i - 1));
        assert(tags@.take(i as int).last() == tags@[i - 1]);
        assert(out@ =~= old(out)@ + tags_text(tags@.take(i as int)));
    }
    assert(tags@.take(tags@.len() as int) =~= tags@);
}

fn push_optional_element(out: &mut Vec<char>, name: &str, value: &Option<String>)
    ensures
        final(out)@ == old(out)@ + optional_element(name@, *value),
{
    match value {
        Some(v) => element0(out, name, v.as_str()),
        None => {
            assert(old(out)@ + optional_element(name@, *value) =~= old(out)@);
        },
    }
}

fn push_optional_meta(out: &mut Vec<char>, name: &str, value: &Option<String>)
    ensures
        final(out)@ == old(out)@ + optional_meta(name@, *value),
{
    match value {
        Some(v) => meta(out, name, v.as_str()),
        None => {
            assert(old(out)@ + optional_meta(name@, *value) =~= old(out)@);
        },
    }
}

fn push_identity(out: &mut Vec<char>, book: &OpfMetadata, uuid: &str)
    ensures
        final(out)@ == old(out)@ + identity_section(*book, uuid@),
{
    element0(out, "dc:title", book.title.as_str());
    push_creators(out, &book.authors);
    element2(out, "dc:contributor", "calibre-rs", "opf:file-as", "calibre-rs", "opf:role", "bkp");
    let id_text = string_of(&decimal_chars(book.id.get()));
    element1(out, "dc:identifier", id_text.as_str(), "opf:scheme", "calibre");
    element2(out, "dc:identifier", uuid, "id", "uuid_id", "opf:scheme", "uuid");
    assert(out@ =~= old(out)@ + identity_section(*book, uuid@));
}

fn push_core(out: &mut Vec<char>, book: &OpfMetadata)
    ensures
        final(out)@ == old(out)@ + core_section(*book),
{
    push_identifiers(out, &book.identifiers);
    push_optional_element(out, "dc:date", &book.publication_date);
    push_optional_element(out, "dc:description", &book.comments);
    let ghost before_publisher = out@;
    match &book.publisher {
        Some(p) => element0(out, "dc:publisher", p.name.as_str()),
        None => {},
    }
    assert(out@ =~= before_publisher + match book.publisher {
        Some(p) => element_text("dc:publisher"@, p.name@, Seq::empty()),
        None => Seq::empty(),
    });
    push_languages(out, &book.languages);
    push_tags(out, &book.tags);
    assert(out@ =~= old(out)@ + core_section(*book));
}

fn push_series_rating(out: &mut Vec<char>, book: &OpfMetadata)
    ensures
        final(out)@ == old(out)@ + series_rating_text(*book),
{
    match &book.series {
        Some(s) => {
            meta(out, "calibre:series", s.name.as_str());
            meta(out, "calibre:series_index", s.index.as_str());
        },
        None => {},
    }
    let ghost after_series = out@;
    match book.rating {
        Some(r) => {
            let text = string_of(&decimal_chars(r.get() as i64));
            meta(out, "calibre:rating", text.as_str());
        },
        None => {},
    }
    assert(out@ =~= old(out)@ + series_rating_text(*book));
}

fn push_sorts(out: &mut Vec<char>, book: &OpfMetadata)
    ensures
        final(out)@ == old(out)@ + sorts_text(*book),
{
    push_optional_meta(out, "calibre:timestamp", &book.timestamp);
    push_optional_meta(out, "calibre:title_sort", &book.sort);
    push_optional_meta(out, "calibre:author_sort", &book.author_sort);
    meta(out, "calibre:last_modified", book.last_modified.as_str());
    assert(out@ =~= old(out)@ + sorts_text(*book));
}

fn push_calibre(out: &mut Vec<char>, book: &OpfMetadata)
    ensures
        final(out)@ == old(out)@ + calibre_section(*book),
{
    push_series_rating(out, book);
    push_sorts(out, book);
    assert(out@ =~= old(out)@ + calibre_section(*book));
}

/// Writes the `metadata.opf` document of a book with the given UUID.
pub fn serialize_with_uuid(book: &OpfMetadata, uuid: &str) -> (r: String)
    ensures
        r@ == opf_document(*book, uuid@),
{
    proof {
        reveal_strlit("<?xml version=\"1.0\" encoding=\"UTF-8\"?>\n<package xmlns=\"http://www.idpf.org/2007/opf\" unique-identifier=\"uuid_id\" version=\"2.0\">\n  <metadata xmlns:dc=\"http://purl.org/dc/elements/1.1/\" xmlns:opf=\"http://www.idpf.org/2007/opf\">\n");
        reveal_strlit("  </metadata>\n  <guide><reference href=\"cover.jpg\" type=\"cover\" title=\"Cover\"/></guide>\n</package>\n");
    }
    let mut out = chars_of("<?xml version=\"1.0\" encoding=\"UTF-8\"?>\n<package xmlns=\"http://www.idpf.org/2007/opf\" unique-identifier=\"uuid_id\" version=\"2.0\">\n  <metadata xmlns:dc=\"http://purl.org/dc/elements/1.1/\" xmlns:opf=\"http://www.idpf.org/2007/opf\">\n");
    push_identity(&mut out, book, uuid);
    push_core(&mut out, book);
    push_calibre(&mut out, book);
    append_str(
        &mut out,
        "  </metadata>\n  <guide><reference href=\"cover.jpg\" type=\"cover\" title=\"Cover\"/></guide>\n</package>\n",
    );
    assert(out@ =~= opf_document(*book, uuid@));
    string_of(&out)
}

/// Writes the `metadata.opf` document of a book, with a fresh random UUID
/// when the book has none.
pub fn serialize(book: &OpfMetadata) -> (r: String)
    ensures
        exists|uuid: Seq<char>|
            (match book.uuid {
                Some(u) => uuid == u@,
                None => uuid_text(uuid),
            }) && r@ == opf_document(*book, uuid),
{
    match &book.uuid {
        Some(u) => serialize_with_uuid(book, u.as_str()),
        None => {
            let u = new_uuid();
            serialize_with_uuid(book, u.as_str())
        },
    }
}

// ---------------------------------------------------------------------------
// Reading the document
// ---------------------------------------------------------------------------
/// An attribute of a parsed XML element.
#[derive(Clone, Debug)]
pub struct XmlAttribute {
    /// Namespace URI, for a prefixed attribute.
    pub namespace: Option<String>,
    /// Local name.
    pub name: String,
    /// Value.
    pub value: String,
}

/// One node of a parsed XML document, in document order; `parent` is the
/// position of the parent node in that order.
#[derive(Clone, Debug)]
pub struct XmlNode {
    /// Whether the node is an element.
    pub element: bool,
    /// Position of the parent node.
    pub parent: Option<usize>,
    /// Namespace URI of an element's name.
    pub namespace: Option<String>,
    /// Local name of an element (empty for other nodes).
    pub name: String,
    /// Attributes of an element.
    pub attributes: Vec<XmlAttribute>,
    /// The node's text as `roxmltree::Node::text` gives it: for an element,
    /// the text of its first child when that child is text; for a text or
    /// comment node, its own text.
    pub text: Option<String>,
}

/// Names the nodes that `roxmltree` parses from an XML document, in
/// document order, or `None` when it rejects the document.
pub uninterp spec fn xml_nodes_of(xml: Seq<char>) -> Option<Seq<XmlNode>>;

/// Calls `roxmltree::Document::parse` and lists the document's nodes in
/// document order (the order of `descendants`, which is also the order of
/// node IDs), each converted field by field; the parser's error is
/// displayed. The contract names the nodes: they are a function of `xml`.
#[verifier::external_body]
fn parse_xml(xml: &str) -> (r: Result<Vec<XmlNode>, String>)
    ensures
        r is Ok <==> xml_nodes_of(xml@) is Some,
        r matches Ok(nodes) ==> xml_nodes_of(xml@) == Some(nodes@),
{
    let document = roxmltree::Document::parse(xml).map_err(|error| error.to_string())?;
    Ok(document.descendants().map(|n| XmlNode {
        element: n.is_element(),
        parent: n.parent().map(|p| p.id().get_usize()),
        namespace: n.tag_name().namespace().map(str::to_owned),
        name: n.tag_name().name().to_owned(),
        attributes: n.attributes().map(|a| XmlAttribute {
            namespace: a.namespace().map(str::to_owned),
            name: a.name().to_owned(),
            value: a.value().to_owned(),
        }).collect(),
        text: n.text().map(str::to_owned),
    }).collect())
}

/// The Dublin Core namespace.
pub open spec fn dc_namespace() -> Seq<char> {
    "http://purl.org/dc/elements/1.1/"@
}

/// The OPF namespace.
pub open spec fn opf_namespace() -> Seq<char> {
    "http://www.idpf.org/2007/opf"@
}

/// A namespace equals the wanted one (both absent, or the same URI).
pub open spec fn same_namespace(a: Option<String>, b: Option<Seq<char>>) -> bool {
    match (a, b) {
        (None, None) => true,
        (Some(x), Some(y)) => x@ == y,
        _ => false,
    }
}

/// The value of the first attribute among the first `k` with the wanted
/// namespace and name.
pub open spec fn attribute_upto(
    attributes: Seq<XmlAttribute>,
    namespace: Option<Seq<char>>,
    name: Seq<char>,
    k: int,
) -> Option<Seq<char>>
    decreases k,
{
    if k <= 0 {
        None
    } else {
        match attribute_upto(attributes, namespace, name, k - 1) {
            Some(v) => Some(v),
            None => {
                let a = attributes[k - 1];
                if same_namespace(a.namespace, namespace) && a.name@ == name {
                    Some(a.value@)
                } else {
                    None
                }
            },
        }
    }
}

proof fn lemma_attribute_upto_stable(
    attributes: Seq<XmlAttribute>,
    namespace: Option<Seq<char>>,
    name: Seq<char>,
    k: int,
    k2: int,
)
    requires
        0 <= k <= k2,
        attribute_upto(attributes, namespace, name, k) is Some,
    ensures
        attribute_upto(attributes, namespace, name, k2) == attribute_upto(
            attributes,
            namespace,
            name,
            k,
        ),
    decreases k2 - k,
{
    if k2 > k {
        lemma_attribute_upto_stable(attributes, namespace, name, k, k2 - 1);
    }
}

/// The value of an element's attribute (`Node::attribute`).
pub open spec fn attribute_of(n: XmlNode, namespace: Option<Seq<char>>, name: Seq<char>) -> Option<
    Seq<char>,
> {
    attribute_upto(n.attributes@, namespace, name, n.attributes@.len() as int)
}

fn same_ns(a: &Option<String>, b: Option<&str>) -> (r: bool)
    ensures
        r == same_namespace(*a, opt_text(b)),
{
    match (a, b) {
        (None, None) => true,
        (Some(x), Some(y)) => chars_eq(&chars_of(x.as_str()), &chars_of(y)),
        _ => false,
    }
}

/// Looks up an attribute of an element by namespace and name.
pub fn attribute(n: &XmlNode, namespace: Option<&str>, name: &str) -> (r: Option<String>)
    ensures
        r matches Some(v) ==> attribute_of(*n, opt_text(namespace), name@) == Some(v@),
        r is None ==> attribute_of(*n, opt_text(namespace), name@) is None,
{
    let ghost ns = opt_text(namespace);
    let mut i: usize = 0;
    while i < n.attributes.len()
        invariant
            ns == opt_text(namespace),
            i <= n.attributes@.len(),
            attribute_upto(n.attributes@, ns, name@, i as int) is None,
        decreases n.attributes@.len() - i,
    {
        let a = &n.attributes[i];
        if same_ns(&a.namespace, namespace) && chars_eq(
            &chars_of(a.name.as_str()),
            &chars_of(name),
        ) {
            proof {
                lemma_attribute_upto_stable(
                    n.attributes@,
                    ns,
                    name@,
                    i + 1,
                    n.attributes@.len() as int,
                );
            }
            return Some(a.value.clone());
        }
        i = i + 1;
    }
    None
}

/// An element's trimmed, non-empty text.
pub open spec fn node_text(n: XmlNode) -> Option<Seq<char>> {
    match n.text {
        Some(t) => if trim_ws(t@).len() > 0 {
            Some(trim_ws(t@))
        } else {
            None
        },
        None => None,
    }
}

fn node_text_of(n: &XmlNode) -> (r: Option<String>)
    ensures
        r matches Some(v) ==> node_text(*n) == Some(v@),
        r is None ==> node_text(*n) is None,
{
    match &n.text {
        Some(t) => {
            let v = trim(&chars_of(t.as_str()));
            if v.len() > 0 {
                Some(string_of(&v))
            } else {
                None
            }
        },
        None => None,
    }
}

/// Node `i` is an element child of node `m`.
pub open spec fn is_child(nodes: Seq<XmlNode>, m: int, i: int) -> bool {
    nodes[i].element && nodes[i].parent == Some(m as usize)
}

/// An element in the Dublin Core namespace with the given local name.
pub open spec fn is_dc(n: XmlNode, name: Seq<char>) -> bool {
    n.name@ == name && same_namespace(n.namespace, Some(dc_namespace()))
}

/// The position of the first `metadata` element among the first `k` nodes.
pub open spec fn metadata_upto(nodes: Seq<XmlNode>, k: int) -> Option<int>
    decreases k,
{
    if k <= 0 {
        None
    } else {
        match metadata_upto(nodes, k - 1) {
            Some(i) => Some(i),
            None => if nodes[k - 1].element && nodes[k - 1].name@ == "metadata"@ {
                Some(k - 1)
            } else {
                None
            },
        }
    }
}

fn text_is(s: &String, literal: &str) -> (r: bool)
    ensures
        r == (s@ == literal@),
{
    chars_eq(&chars_of(s.as_str()), &chars_of(literal))
}

fn is_dc_node(n: &XmlNode, name: &str) -> (r: bool)
    ensures
        r == is_dc(*n, name@),
{
    proof {
        reveal_strlit("http://purl.org/dc/elements/1.1/");
    }
    text_is(&n.name, name) && same_ns(&n.namespace, Some("http://purl.org/dc/elements/1.1/"))
}

/// Finds the first `metadata` element.
pub fn find_metadata(nodes: &Vec<XmlNode>) -> (r: Option<usize>)
    ensures
        r matches Some(i) ==> metadata_upto(nodes@, nodes@.len() as int) == Some(i as int),
        r is None ==> metadata_upto(nodes@, nodes@.len() as int) is None,
{
    let mut i: usize = 0;
    while i < nodes.len()
        invariant
            i <= nodes@.len(),
            metadata_upto(nodes@, i as int) is None,
        decreases nodes@.len() - i,
    {
        if nodes[i].element && text_is(&nodes[i].name, "metadata") {
            proof {
                lemma_metadata_stable(nodes@, i + 1, nodes@.len() as int);
            }
            return Some(i);
        }
        i = i + 1;
    }
    None
}

proof fn lemma_metadata_stable(nodes: Seq<XmlNode>, k: int, k2: int)
    requires
        0 <= k <= k2,
        metadata_upto(nodes, k) is Some,
    ensures
        metadata_upto(nodes, k2) == metadata_upto(nodes, k),
    decreases k2 - k,
{
    if k2 > k {
        lemma_metadata_stable(nodes, k, k2 - 1);
    }
}

/// The texts of the Dublin Core children named `name` among the first `k`
/// nodes, empty ones skipped.
pub open spec fn dc_values_upto(nodes: Seq<XmlNode>, m: int, name: Seq<char>, k: int) -> Seq<
    Seq<char>,
>
    decreases k,
{
    if k <= 0 {
        Seq::empty()
    } else {
        let prev = dc_values_upto(nodes, m, name, k - 1);
        let n = nodes[k - 1];
        if is_child(nodes, m, k - 1) && is_dc(n, name) && node_text(n) is Some {
            prev.push(node_text(n).unwrap())
        } else {
            prev
        }
    }
}

/// The texts of the Dublin Core children of `metadata` named `name`.
pub open spec fn dc_values(nodes: Seq<XmlNode>, m: int, name: Seq<char>) -> Seq<Seq<char>> {
    dc_values_upto(nodes, m, name, nodes.len() as int)
}

/// Collects the texts of the Dublin Core children of node `m` named `name`.
pub fn dc_values_of(nodes: &Vec<XmlNode>, m: usize, name: &str) -> (r: Vec<String>)
    ensures
        crate::books::views(r@) == dc_values(nodes@, m as int, name@),
{
    let mut out: Vec<String> = Vec::new();
    let mut i: usize = 0;
    while i < nodes.len()
        invariant
            i <= nodes@.len(),
            crate::books::views(out@) == dc_values_upto(nodes@, m as int, name@, i as int),
        decreases nodes@.len() - i,
    {
        let n = &nodes[i];
        if n.element && n.parent == Some(m) && is_dc_node(n, name) {
            match node_text_of(n) {
                Some(v) => {
                    let ghost before = crate::books::views(out@);
                    out.push(v);
                    assert(crate::books::views(out@) =~= before.push(v@));
                },
                None => {},
            }
        }
        i = i + 1;
    }
    out
}

/// The first of a list of values.
fn first_of(values: Vec<String>) -> (r: Option<String>)
    ensures
        r matches Some(v) ==> values@.len() > 0 && v@ == values@[0]@,
        r is None ==> values@.len() == 0,
{
    if values.len() > 0 {
        Some(values[0].clone())
    } else {
        None
    }
}

/// The value a `meta` element gives: its `content` attribute, else its
/// text, trimmed; `None` when empty.
pub open spec fn meta_value_of(n: XmlNode) -> Option<Seq<char>> {
    let raw = match attribute_of(n, None, "content"@) {
        Some(c) => Some(c),
        None => match n.text {
            Some(t) => Some(t@),
            None => None,
        },
    };
    match raw {
        Some(v) => if trim_ws(v).len() > 0 {
            Some(trim_ws(v))
        } else {
            None
        },
        None => None,
    }
}

/// A `meta` element whose `name` attribute is `name`.
pub open spec fn is_meta_named(n: XmlNode, name: Seq<char>) -> bool {
    n.name@ == "meta"@ && attribute_of(n, None, "name"@) == Some(name)
}

/// The position of the first `meta` child named `name` among the first `k`
/// nodes.
pub open spec fn meta_upto(nodes: Seq<XmlNode>, m: int, name: Seq<char>, k: int) -> Option<int>
    decreases k,
{
    if k <= 0 {
        None
    } else {
        match meta_upto(nodes, m, name, k - 1) {
            Some(i) => Some(i),
            None => if is_child(nodes, m, k - 1) && is_meta_named(nodes[k - 1], name) {
                Some(k - 1)
            } else {
                None
            },
        }
    }
}

/// The value of the first `meta` child of `metadata` named `name`.
pub open spec fn meta_value(nodes: Seq<XmlNode>, m: int, name: Seq<char>) -> Option<Seq<char>> {
    match meta_upto(nodes, m, name, nodes.len() as int) {
        Some(i) => meta_value_of(nodes[i]),
        None => None,
    }
}

proof fn lemma_meta_stable(nodes: Seq<XmlNode>, m: int, name: Seq<char>, k: int, k2: int)
    requires
        0 <= k <= k2,
        meta_upto(nodes, m, name, k) is Some,
    ensures
        meta_upto(nodes, m, name, k2) == meta_upto(nodes, m, name, k),
    decreases k2 - k,
{
    if k2 > k {
        lemma_meta_stable(nodes, m, name, k, k2 - 1);
    }
}

fn meta_named(n: &XmlNode, name: &str) -> (r: bool)
    ensures
        r == is_meta_named(*n, name@),
{
    proof {
        reveal_strlit("meta");
        reveal_strlit("name");
    }
    if !text_is(&n.name, "meta") {
        return false;
    }
    match attribute(n, None, "name") {
        Some(v) => chars_eq(&chars_of(v.as_str()), &chars_of(name)),
        None => false,
    }
}

/// Reads the value of the first `meta` child of node `m` named `name`.
pub fn meta_value_in(nodes: &Vec<XmlNode>, m: usize, name: &str) -> (r: Option<String>)
    ensures
        r matches Some(v) ==> meta_value(nodes@, m as int, name@) == Some(v@),
        r is None ==> meta_value(nodes@, m as int, name@) is None,
{
    let mut i: usize = 0;
    while i < nodes.len()
        invariant
            i <= nodes@.len(),
            meta_upto(nodes@, m as int, name@, i as int) is None,
        decreases nodes@.len() - i,
    {
        let n = &nodes[i];
        if n.element && n.parent == Some(m) && meta_named(n, name) {
            proof {
                lemma_meta_stable(nodes@, m as int, name@, i + 1, nodes@.len() as int);
                reveal_strlit("content");
            }
            let raw = match attribute(n, None, "content") {
                Some(c) => Some(c),
                None => match &n.text {
                    Some(t) => Some(t.clone()),
                    None => None,
                },
            };
            return match raw {
                Some(v) => {
                    let t = trim(&chars_of(v.as_str()));
                    if t.len() > 0 {
                        Some(string_of(&t))
                    } else {
                        None
                    }
                },
                None => None,
            };
        }
        i = i + 1;
    }
    None
}

/// A `meta` name whose state a core restoration cannot keep.
pub open spec fn unsupported_meta_name(name: Seq<char>) -> bool {
    name == "calibre:user_metadata"@ || name == "calibre:link_maps"@ || name
        == "calibre:user_categories"@ || name == "calibre:annotations"@
}

/// Some `meta` child among the first `k` nodes carries unsupported state.
pub open spec fn unsupported_upto(nodes: Seq<XmlNode>, m: int, k: int) -> bool
    decreases k,
{
    if k <= 0 {
        false
    } else {
        unsupported_upto(nodes, m, k - 1) || (is_child(nodes, m, k - 1) && nodes[k - 1].name@
            == "meta"@ && (attribute_of(nodes[k - 1], None, "name"@) matches Some(n)
            && unsupported_meta_name(n)))
    }
}

fn is_unsupported_meta(n: &XmlNode) -> (r: bool)
    ensures
        r == (n.name@ == "meta"@ && (attribute_of(*n, None, "name"@) matches Some(v)
            && unsupported_meta_name(v))),
{
    proof {
        reveal_strlit("meta");
        reveal_strlit("name");
    }
    if !text_is(&n.name, "meta") {
        return false;
    }
    match attribute(n, None, "name") {
        Some(v) => text_is(&v, "calibre:user_metadata") || text_is(&v, "calibre:link_maps")
            || text_is(&v, "calibre:user_categories") || text_is(&v, "calibre:annotations"),
        None => false,
    }
}

/// Whether a child `meta` element of node `m` carries state that a core
/// restoration cannot keep.
pub fn has_unsupported_meta(nodes: &Vec<XmlNode>, m: usize) -> (r: bool)
    ensures
        r == unsupported_upto(nodes@, m as int, nodes@.len() as int),
{
    let mut found = false;
    let mut i: usize = 0;
    while i < nodes.len()
        invariant
            i <= nodes@.len(),
            found == unsupported_upto(nodes@, m as int, i as int),
        decreases nodes@.len() - i,
    {
        let n = &nodes[i];
        if n.element && n.parent == Some(m) && is_unsupported_meta(n) {
            found = true;
        }
        i = i + 1;
    }
    found
}

/// The role of a creator: its OPF `role` attribute, else an unprefixed one.
pub open spec fn creator_role(n: XmlNode) -> Option<Seq<char>> {
    match attribute_of(n, Some(opf_namespace()), "role"@) {
        Some(r) => Some(r),
        None => attribute_of(n, None, "role"@),
    }
}

/// A `dc:creator` that names an author: no role, or the role `aut` in any
/// ASCII case.
pub open spec fn is_author(n: XmlNode) -> bool {
    is_dc(n, "creator"@) && match creator_role(n) {
        None => true,
        Some(r) => eq_ignore_ascii_case(r, "aut"@),
    }
}

/// The positions of the author creators among the first `k` nodes.
pub open spec fn authors_upto(nodes: Seq<XmlNode>, m: int, k: int) -> Seq<int>
    decreases k,
{
    if k <= 0 {
        Seq::empty()
    } else if is_child(nodes, m, k - 1) && is_author(nodes[k - 1]) {
        authors_upto(nodes, m, k - 1).push(k - 1)
    } else {
        authors_upto(nodes, m, k - 1)
    }
}

/// The texts of the author creators among the first `k` nodes, empty ones
/// skipped.
pub open spec fn author_names_upto(nodes: Seq<XmlNode>, m: int, k: int) -> Seq<Seq<char>>
    decreases k,
{
    if k <= 0 {
        Seq::empty()
    } else if is_child(nodes, m, k - 1) && is_author(nodes[k - 1]) && node_text(nodes[k - 1]) is Some {
        author_names_upto(nodes, m, k - 1).push(node_text(nodes[k - 1]).unwrap())
    } else {
        author_names_upto(nodes, m, k - 1)
    }
}

fn author_node(n: &XmlNode) -> (r: bool)
    ensures
        r == is_author(*n),
{
    proof {
        reveal_strlit("http://www.idpf.org/2007/opf");
        reveal_strlit("role");
        reveal_strlit("aut");
    }
    if !is_dc_node(n, "creator") {
        return false;
    }
    let role = match attribute(n, Some("http://www.idpf.org/2007/opf"), "role") {
        Some(r) => Some(r),
        None => attribute(n, None, "role"),
    };
    match role {
        None => true,
        Some(r) => equal_ignore_ascii_case(r.as_str(), "aut"),
    }
}

/// The authors a document's creators name and the position of the first
/// author creator.
pub fn author_creators(nodes: &Vec<XmlNode>, m: usize) -> (r: (Vec<String>, Option<usize>))
    ensures
        crate::books::views(r.0@) == author_names_upto(nodes@, m as int, nodes@.len() as int),
        r.1 matches Some(i) ==> authors_upto(nodes@, m as int, nodes@.len() as int).len() > 0
            && authors_upto(nodes@, m as int, nodes@.len() as int)[0] == i as int,
        r.1 is None ==> authors_upto(nodes@, m as int, nodes@.len() as int).len() == 0,
        r.1 matches Some(i) ==> i < nodes@.len(),
{
    let mut names: Vec<String> = Vec::new();
    let mut first: Option<usize> = None;
    let mut i: usize = 0;
    while i < nodes.len()
        invariant
            i <= nodes@.len(),
            crate::books::views(names@) == author_names_upto(nodes@, m as int, i as int),
            first matches Some(f) ==> authors_upto(nodes@, m as int, i as int).len() > 0
                && authors_upto(nodes@, m as int, i as int)[0] == f as int,
            first is None ==> authors_upto(nodes@, m as int, i as int).len() == 0,
            first matches Some(f) ==> f < i,
        decreases nodes@.len() - i,
    {
        let n = &nodes[i];
        if n.element && n.parent == Some(m) && author_node(n) {
            if first.is_none() {
                first = Some(i);
            }
            match node_text_of(n) {
                Some(v) => {
                    let ghost before = crate::books::views(names@);
                    names.push(v);
                    assert(crate::books::views(names@) =~= before.push(v@));
                },
                None => {},
            }
        }
        i = i + 1;
    }
    (names, first)
}

/// The scheme of an identifier in ASCII lower case: its OPF `scheme`
/// attribute, else an unprefixed one, else empty.
pub open spec fn identifier_scheme(n: XmlNode) -> Seq<char> {
    let raw = match attribute_of(n, Some(opf_namespace()), "scheme"@) {
        Some(s) => s,
        None => match attribute_of(n, None, "scheme"@) {
            Some(s) => s,
            None => Seq::empty(),
        },
    };
    raw.map_values(|c: char| crate::paths::ascii_lower(c))
}

/// What the identifiers among the first `k` nodes give: the last Calibre
/// ID (`None` when it did not parse), the last UUID, and every other scheme
/// and value in order.
pub open spec fn identifiers_upto(nodes: Seq<XmlNode>, m: int, k: int) -> (
    Option<int>,
    Option<Seq<char>>,
    Seq<(Seq<char>, Seq<char>)>,
)
    decreases k,
{
    if k <= 0 {
        (None, None, Seq::empty())
    } else {
        let prev = identifiers_upto(nodes, m, k - 1);
        let n = nodes[k - 1];
        if is_child(nodes, m, k - 1) && is_dc(n, "identifier"@) && node_text(n) is Some {
            let v = node_text(n).unwrap();
            let scheme = identifier_scheme(n);
            if scheme == "calibre"@ {
                (parse_int(v), prev.1, prev.2)
            } else if scheme == "uuid"@ {
                (prev.0, Some(v), prev.2)
            } else if scheme.len() == 0 {
                prev
            } else {
                (prev.0, prev.1, prev.2.push((scheme, v)))
            }
        } else {
            prev
        }
    }
}

/// The pairs of an identifier list.
pub open spec fn identifier_pairs(ids: Seq<Identifier>) -> Seq<(Seq<char>, Seq<char>)> {
    ids.map_values(|i: Identifier| (i.kind@, i.value@))
}

fn scheme_of(n: &XmlNode) -> (r: String)
    ensures
        r@ == identifier_scheme(*n),
{
    proof {
        reveal_strlit("http://www.idpf.org/2007/opf");
        reveal_strlit("scheme");
    }
    let raw = match attribute(n, Some("http://www.idpf.org/2007/opf"), "scheme") {
        Some(s) => s,
        None => match attribute(n, None, "scheme") {
            Some(s) => s,
            None => String::new(),
        },
    };
    string_of(&crate::paths::to_ascii_lower(&chars_of(raw.as_str())))
}

/// Reads the identifiers of node `m` (see [`identifiers_upto`]).
pub fn identifiers_in(nodes: &Vec<XmlNode>, m: usize) -> (r: (
    Option<i64>,
    Option<String>,
    Vec<Identifier>,
))
    ensures
        ({
            let f = identifiers_upto(nodes@, m as int, nodes@.len() as int);
            &&& (r.0 matches Some(v) ==> f.0 == Some(v as int))
            &&& (r.0 is None ==> f.0 is None)
            &&& (r.1 matches Some(u) ==> f.1 == Some(u@))
            &&& (r.1 is None ==> f.1 is None)
            &&& identifier_pairs(r.2@) == f.2
        }),
{
    let mut calibre: Option<i64> = None;
    let mut uuid: Option<String> = None;
    let mut others: Vec<Identifier> = Vec::new();
    let mut i: usize = 0;
    while i < nodes.len()
        invariant
            i <= nodes@.len(),
            ({
                let f = identifiers_upto(nodes@, m as int, i as int);
                &&& (calibre matches Some(v) ==> f.0 == Some(v as int))
                &&& (calibre is None ==> f.0 is None)
                &&& (uuid matches Some(u) ==> f.1 == Some(u@))
                &&& (uuid is None ==> f.1 is None)
                &&& identifier_pairs(others@) == f.2
            }),
        decreases nodes@.len() - i,
    {
        let n = &nodes[i];
        if n.element && n.parent == Some(m) && is_dc_node(n, "identifier") {
            match node_text_of(n) {
                Some(v) => {
                    let scheme = scheme_of(n);
                    if text_is(&scheme, "calibre") {
                        calibre = parse_i64(v.as_str());
                    } else if text_is(&scheme, "uuid") {
                        uuid = Some(v);
                    } else if chars_of(scheme.as_str()).len() == 0 {
                    } else {
                        let ghost before = identifier_pairs(others@);
                        assert(scheme@.len() != 0) by {
                            if scheme@.len() == 0 {
                                assert(scheme@ =~= Seq::<char>::empty());
                            }
                        }
                        others.push(Identifier { kind: scheme, value: v });
                        assert(identifier_pairs(others@) =~= before.push(
                            (others@.last().kind@, others@.last().value@),
                        ));
                    }
                },
                None => {},
            }
        }
        i = i + 1;
    }
    (calibre, uuid, others)
}

/// The core metadata of a trashed book, read back from its `metadata.opf`.
#[derive(Clone, Debug)]
pub struct TrashBookMetadata {
    /// Book ID the document names.
    pub id: BookId,
    /// Title.
    pub title: String,
    /// Title sort.
    pub sort: Option<String>,
    /// Date added.
    pub timestamp: Option<String>,
    /// Publication date.
    pub publication_date: Option<String>,
    /// Author sort.
    pub author_sort: Option<String>,
    /// Book UUID.
    pub uuid: Option<String>,
    /// Authors in order.
    pub authors: Vec<String>,
    /// Tags in order.
    pub tags: Vec<String>,
    /// Series name.
    pub series: Option<String>,
    /// Series index, as the document writes it.
    pub series_index: Option<String>,
    /// Publisher name.
    pub publisher: Option<String>,
    /// Language codes in order.
    pub languages: Vec<String>,
    /// External identifiers in document order, schemes in lower case.
    pub identifiers: Vec<Identifier>,
    /// Comments.
    pub comments: Option<String>,
    /// Rating.
    pub rating: Option<Rating>,
}

/// The value `str::parse::<u8>` gives: digits (an optional `+` first) whose
/// value fits in a byte.
pub open spec fn parse_u8_spec(s: Seq<char>) -> Option<int> {
    if s.len() > 0 && s[0] == '-' {
        None
    } else {
        match parse_int(s) {
            Some(v) => if 0 <= v <= 255 {
                Some(v)
            } else {
                None
            },
            None => None,
        }
    }
}

/// The first of a list, if any.
pub open spec fn first_value(values: Seq<Seq<char>>) -> Option<Seq<char>> {
    if values.len() > 0 {
        Some(values[0])
    } else {
        None
    }
}

/// Whether a parsed document's `metadata` element carries state that a
/// core restoration cannot keep.
pub open spec fn opf_unsupported(nodes: Seq<XmlNode>) -> bool {
    metadata_upto(nodes, nodes.len() as int) matches Some(m) && unsupported_upto(
        nodes,
        m,
        nodes.len() as int,
    )
}

/// Whether a parsed document can be read back for book `expected`: it has
/// a `metadata` element without unsupported state, its Calibre identifier
/// names the book, and a rating, if any, is an integer from 1 through 10.
pub open spec fn opf_readable(nodes: Seq<XmlNode>, expected: int) -> bool {
    metadata_upto(nodes, nodes.len() as int) matches Some(m) && !unsupported_upto(
        nodes,
        m,
        nodes.len() as int,
    ) && identifiers_upto(nodes, m, nodes.len() as int).0 == Some(expected) && (meta_value(
        nodes,
        m,
        "calibre:rating"@,
    ) matches Some(v) ==> (parse_u8_spec(v) matches Some(x) && 1 <= x <= 10))
}

/// The author sort a document gives: the first author creator's OPF
/// `file-as`, else the `calibre:author_sort` meta value.
pub open spec fn author_sort_of(nodes: Seq<XmlNode>, m: int) -> Option<Seq<char>> {
    let first = authors_upto(nodes, m, nodes.len() as int);
    let file_as = if first.len() > 0 {
        attribute_of(nodes[first[0]], Some(opf_namespace()), "file-as"@)
    } else {
        None
    };
    match file_as {
        Some(a) => Some(a),
        None => meta_value(nodes, m, "calibre:author_sort"@),
    }
}

/// Views of optional strings.
pub open spec fn opt_view(o: Option<String>) -> Option<Seq<char>> {
    match o {
        Some(s) => Some(s@),
        None => None,
    }
}

/// What a readable document gives, field by field.
pub open spec fn opf_fields_match(t: TrashBookMetadata, nodes: Seq<XmlNode>, m: int) -> bool {
    let titles = dc_values(nodes, m, "title"@);
    let authors = author_names_upto(nodes, m, nodes.len() as int);
    let ids = identifiers_upto(nodes, m, nodes.len() as int);
    &&& t.title@ == (if titles.len() > 0 {
        titles[0]
    } else {
        "Unknown"@
    })
    &&& crate::books::views(t.authors@) == (if authors.len() > 0 {
        authors
    } else {
        seq!["Unknown"@]
    })
    &&& opt_view(t.author_sort) == author_sort_of(nodes, m)
    &&& opt_view(t.uuid) == ids.1
    &&& identifier_pairs(t.identifiers@) == ids.2
    &&& opt_view(t.sort) == meta_value(nodes, m, "calibre:title_sort"@)
    &&& opt_view(t.timestamp) == meta_value(nodes, m, "calibre:timestamp"@)
    &&& opt_view(t.series) == meta_value(nodes, m, "calibre:series"@)
    &&& opt_view(t.series_index) == meta_value(nodes, m, "calibre:series_index"@)
    &&& opt_view(t.publication_date) == first_value(dc_values(nodes, m, "date"@))
    &&& opt_view(t.publisher) == first_value(dc_values(nodes, m, "publisher"@))
    &&& opt_view(t.comments) == first_value(dc_values(nodes, m, "description"@))
    &&& crate::books::views(t.tags@) == dc_values(nodes, m, "subject"@)
    &&& crate::books::views(t.languages@) == dc_values(nodes, m, "language"@)
    &&& (t.rating matches Some(r) ==> meta_value(nodes, m, "calibre:rating"@) matches Some(v)
        && parse_u8_spec(v) == Some(r@ as int))
    &&& (t.rating is None ==> meta_value(nodes, m, "calibre:rating"@) is None)
}

fn parse_u8(text: &str) -> (r: Option<u8>)
    ensures
        r matches Some(v) ==> parse_u8_spec(text@) == Some(v as int),
        r is None ==> parse_u8_spec(text@) is None,
{
    let c = chars_of(text);
    if c.len() > 0 && c[0] == '-' {
        return None;
    }
    match parse_i64(text) {
        Some(v) => if 0 <= v && v <= 255 {
            Some(v as u8)
        } else {
            None
        },
        None => None,
    }
}

/// Reads the core metadata of trashed book `expected` from the nodes of its
/// `metadata.opf` (see [`opf_fields_match`] for each field).
///
/// Returns [`Error::InvalidLibrary`] (naming `path`) when there is no
/// `metadata` element, the Calibre identifier names another book, or the
/// rating is invalid; [`Error::UnsupportedOperation`] when a `meta`
/// element carries state a core restoration cannot keep.
pub fn opf_metadata(nodes: &Vec<XmlNode>, expected: BookId, path: &str) -> (r: Result<
    TrashBookMetadata,
    Error,
>)
    ensures
        r is Ok <==> opf_readable(nodes@, expected@ as int),
        r matches Ok(t) ==> t.id == expected && (metadata_upto(nodes@, nodes@.len() as int) matches Some(
            m,
        ) && opf_fields_match(t, nodes@, m)),
        r matches Err(e) ==> if opf_unsupported(nodes@) {
            e is UnsupportedOperation
        } else {
            e matches Error::InvalidLibrary { path: p, .. } && p@ == path@
        },
{
    proof {
        reveal_strlit("Unknown");
        reveal_strlit("http://www.idpf.org/2007/opf");
        reveal_strlit("file-as");
    }
    let m = match find_metadata(nodes) {
        Some(m) => m,
        None => return Err(invalid_library(path, "trash metadata.opf has no metadata element")),
    };
    if has_unsupported_meta(nodes, m) {
        return Err(
            unsupported(
                "restore book from trash",
                "metadata.opf contains state that core restoration cannot preserve",
            ),
        );
    }
    let title = match first_of(dc_values_of(nodes, m, "title")) {
        Some(t) => t,
        None => "Unknown".to_owned(),
    };
    let (names, first) = author_creators(nodes, m);
    let authors = if names.len() > 0 {
        names
    } else {
        let mut v: Vec<String> = Vec::new();
        v.push("Unknown".to_owned());
        assert(crate::books::views(v@) =~= seq!["Unknown"@]);
        v
    };
    let file_as = match first {
        Some(i) => attribute(&nodes[i], Some("http://www.idpf.org/2007/opf"), "file-as"),
        None => None,
    };
    let author_sort = match file_as {
        Some(a) => Some(a),
        None => meta_value_in(nodes, m, "calibre:author_sort"),
    };
    let (calibre, uuid, identifiers) = identifiers_in(nodes, m);
    match calibre {
        Some(v) => if v != expected.get() {
            return Err(invalid_library(path, "metadata.opf identifies another book"));
        },
        None => {
            return Err(invalid_library(path, "metadata.opf identifies another book"));
        },
    }
    let rating = match meta_value_in(nodes, m, "calibre:rating") {
        Some(v) => match parse_u8(v.as_str()) {
            Some(x) => match Rating::new(x) {
                Ok(r) => Some(r),
                Err(_) => {
                    return Err(invalid_library(path, "metadata.opf rating is outside 1 through 10"))
                },
            },
            None => return Err(invalid_library(path, "metadata.opf has an invalid rating")),
        },
        None => None,
    };
    Ok(
        TrashBookMetadata {
            id: expected,
            title,
            sort: meta_value_in(nodes, m, "calibre:title_sort"),
            timestamp: meta_value_in(nodes, m, "calibre:timestamp"),
            publication_date: first_of(dc_values_of(nodes, m, "date")),
            author_sort,
            uuid,
            authors,
            tags: dc_values_of(nodes, m, "subject"),
            series: meta_value_in(nodes, m, "calibre:series"),
            series_index: meta_value_in(nodes, m, "calibre:series_index"),
            publisher: first_of(dc_values_of(nodes, m, "publisher")),
            languages: dc_values_of(nodes, m, "language"),
            identifiers,
            comments: first_of(dc_values_of(nodes, m, "description")),
            rating,
        },
    )
}

/// Parses the `metadata.opf` of trashed book `expected`.
///
/// Returns [`Error::InvalidLibrary`] (naming `path`) for XML the parser
/// rejects, and otherwise what [`opf_metadata`] returns for its nodes.
pub fn parse(xml: &str, path: &str, expected: BookId) -> (r: Result<TrashBookMetadata, Error>)
    ensures
        xml_nodes_of(xml@) is None ==> (r matches Err(e) && e is InvalidLibrary),
        xml_nodes_of(xml@) matches Some(nodes) ==> (r is Ok <==> opf_readable(
            nodes,
            expected@ as int,
        )),
        r matches Ok(t) ==> t.id == expected && (xml_nodes_of(xml@) matches Some(nodes)
            && metadata_upto(nodes, nodes.len() as int) matches Some(m) && opf_fields_match(
            t,
            nodes,
            m,
        )),
        r matches Err(e) ==> match xml_nodes_of(xml@) {
            Some(nodes) => if opf_unsupported(nodes) {
                e is UnsupportedOperation
            } else {
                e matches Error::InvalidLibrary { path: p, .. } && p@ == path@
            },
            None => e matches Error::InvalidLibrary { path: p, .. } && p@ == path@,
        },
{
    match parse_xml(xml) {
        Ok(nodes) => opf_metadata(&nodes, expected, path),
        Err(_) => Err(invalid_library(path, "trash metadata.opf is invalid XML")),
    }
}

} // verus!
