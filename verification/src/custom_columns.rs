use crate::error::{invalid_input, invalid_library, Error};
use crate::ids::CustomColumnId;
use crate::library::Library;
use crate::text::{append_chars, chars_eq, chars_of, decimal, decimal_chars, skip, string_of};
use vstd::prelude::*;

verus! {

/// The declared data type of a Calibre custom column.
#[derive(Clone, Debug)]
pub enum CustomColumnKind {
    /// A text value or list of text values.
    Text,
    /// Long-form text.
    Comments,
    /// A series name and per-book index.
    Series,
    /// Calibre's integer rating value.
    Rating,
    /// An ISO-like timestamp stored by Calibre.
    DateTime,
    /// A three-state boolean value.
    Boolean,
    /// An integer value.
    Integer,
    /// A floating-point value.
    Float,
    /// A value selected from a configured enumeration.
    Enumeration,
    /// A value evaluated from a Calibre template.
    Composite,
    /// A data type this crate does not yet recognize.
    Unknown(String),
}

/// The kind a `datatype` value of `custom_columns` names.
pub open spec fn kind_spec(value: Seq<char>) -> CustomColumnKind {
    if value == "text"@ {
        CustomColumnKind::Text
    } else if value == "comments"@ {
        CustomColumnKind::Comments
    } else if value == "series"@ {
        CustomColumnKind::Series
    } else if value == "rating"@ {
        CustomColumnKind::Rating
    } else if value == "datetime"@ {
        CustomColumnKind::DateTime
    } else if value == "bool"@ {
        CustomColumnKind::Boolean
    } else if value == "int"@ {
        CustomColumnKind::Integer
    } else if value == "float"@ {
        CustomColumnKind::Float
    } else if value == "enumeration"@ {
        CustomColumnKind::Enumeration
    } else if value == "composite"@ {
        CustomColumnKind::Composite
    } else {
        CustomColumnKind::Text
    }
}

/// Whether a `datatype` value names a kind this crate knows.
pub open spec fn known_kind(value: Seq<char>) -> bool {
    value == "text"@ || value == "comments"@ || value == "series"@ || value == "rating"@ || value
        == "datetime"@ || value == "bool"@ || value == "int"@ || value == "float"@ || value
        == "enumeration"@ || value == "composite"@
}

/// Distinct known `datatype` values name distinct kinds: no two of the
/// declared types are read as the same kind.
pub proof fn lemma_known_kinds_distinct(a: Seq<char>, b: Seq<char>)
    requires
        known_kind(a),
        known_kind(b),
        a != b,
    ensures
        kind_spec(a) != kind_spec(b),
{
    reveal_strlit("text");
    reveal_strlit("comments");
    reveal_strlit("series");
    reveal_strlit("rating");
    reveal_strlit("datetime");
    reveal_strlit("bool");
    reveal_strlit("int");
    reveal_strlit("float");
    reveal_strlit("enumeration");
    reveal_strlit("composite");
    assert("text"@ != "bool"@ && "text"@ != "int"@ && "bool"@ != "int"@) by {
        assert("text"@[0] != "bool"@[0]);
        assert("text"@.len() != "int"@.len());
    }
    assert("series"@ != "rating"@) by {
        assert("series"@[0] != "rating"@[0]);
    }
    assert("datetime"@ != "comments"@) by {
        assert("datetime"@[0] != "comments"@[0]);
    }
    assert("float"@ != "int"@) by {
        assert("float"@.len() != "int"@.len());
    }
}

/// Every kind but an unknown one is named by a known `datatype` value.
pub proof fn lemma_known_kinds_cover(k: CustomColumnKind)
    requires
        !(k is Unknown),
    ensures
        exists|v: Seq<char>| known_kind(v) && kind_spec(v) == k,
{
    reveal_strlit("text");
    reveal_strlit("comments");
    reveal_strlit("series");
    reveal_strlit("rating");
    reveal_strlit("datetime");
    reveal_strlit("bool");
    reveal_strlit("int");
    reveal_strlit("float");
    reveal_strlit("enumeration");
    reveal_strlit("composite");
    match k {
        CustomColumnKind::Text => {
            assert(known_kind("text"@) && kind_spec("text"@) == k);
        },
        CustomColumnKind::Comments => {
            assert("comments"@.len() != "text"@.len());
            assert(known_kind("comments"@) && kind_spec("comments"@) == k);
        },
        CustomColumnKind::Series => {
            assert("series"@.len() != "text"@.len());
            assert("series"@.len() != "comments"@.len());
            assert(known_kind("series"@) && kind_spec("series"@) == k);
        },
        CustomColumnKind::Rating => {
            assert("rating"@.len() != "text"@.len());
            assert("rating"@.len() != "comments"@.len());
            assert("rating"@[0] != "series"@[0]);
            assert(known_kind("rating"@) && kind_spec("rating"@) == k);
        },
        CustomColumnKind::DateTime => {
            assert("datetime"@.len() != "text"@.len());
            assert("datetime"@[0] != "comments"@[0]);
            assert("datetime"@.len() != "series"@.len());
            assert("datetime"@.len() != "rating"@.len());
            assert(known_kind("datetime"@) && kind_spec("datetime"@) == k);
        },
        CustomColumnKind::Boolean => {
            assert("bool"@[0] != "text"@[0]);
            assert("bool"@.len() != "comments"@.len());
            assert("bool"@.len() != "series"@.len());
            assert("bool"@.len() != "rating"@.len());
            assert("bool"@.len() != "datetime"@.len());
            assert(known_kind("bool"@) && kind_spec("bool"@) == k);
        },
        CustomColumnKind::Integer => {
            assert("int"@.len() != "text"@.len());
            assert("int"@.len() != "comments"@.len());
            assert("int"@.len() != "series"@.len());
            assert("int"@.len() != "rating"@.len());
            assert("int"@.len() != "datetime"@.len());
            assert("int"@.len() != "bool"@.len());
            assert(known_kind("int"@) && kind_spec("int"@) == k);
        },
        CustomColumnKind::Float => {
            assert("float"@.len() != "text"@.len());
            assert("float"@.len() != "comments"@.len());
            assert("float"@.len() != "series"@.len());
            assert("float"@.len() != "rating"@.len());
            assert("float"@.len() != "datetime"@.len());
            assert("float"@.len() != "bool"@.len());
            assert("float"@.len() != "int"@.len());
            assert(known_kind("float"@) && kind_spec("float"@) == k);
        },
        CustomColumnKind::Enumeration => {
            assert("enumeration"@.len() != "text"@.len());
            assert("enumeration"@.len() != "comments"@.len());
            assert("enumeration"@.len() != "series"@.len());
            assert("enumeration"@.len() != "rating"@.len());
            assert("enumeration"@.len() != "datetime"@.len());
            assert("enumeration"@.len() != "bool"@.len());
            assert("enumeration"@.len() != "int"@.len());
            assert("enumeration"@.len() != "float"@.len());
            assert(known_kind("enumeration"@) && kind_spec("enumeration"@) == k);
        },
        CustomColumnKind::Composite => {
            assert("composite"@.len() != "text"@.len());
            assert("composite"@.len() != "comments"@.len());
            assert("composite"@.len() != "series"@.len());
            assert("composite"@.len() != "rating"@.len());
            assert("composite"@.len() != "datetime"@.len());
            assert("composite"@.len() != "bool"@.len());
            assert("composite"@.len() != "int"@.len());
            assert("composite"@.len() != "float"@.len());
            assert("composite"@.len() != "enumeration"@.len());
            assert(known_kind("composite"@) && kind_spec("composite"@) == k);
        },
        CustomColumnKind::Unknown(_) => {},
    }
}

impl CustomColumnKind {
    /// The kind a `datatype` value of `custom_columns` names; any other
    /// value is kept as [`CustomColumnKind::Unknown`].
    pub fn from_database(value: String) -> (r: Self)
        ensures
            known_kind(value@) ==> r == kind_spec(value@),
            !known_kind(value@) ==> (r matches CustomColumnKind::Unknown(v) && v@ == value@),
    {
        proof {
            reveal_strlit("text");
            reveal_strlit("comments");
            reveal_strlit("series");
            reveal_strlit("rating");
            reveal_strlit("datetime");
            reveal_strlit("bool");
            reveal_strlit("int");
            reveal_strlit("float");
            reveal_strlit("enumeration");
            reveal_strlit("composite");
        }
        let v = chars_of(value.as_str());
        if chars_eq(&v, &chars_of("text")) {
            CustomColumnKind::Text
        } else if chars_eq(&v, &chars_of("comments")) {
            CustomColumnKind::Comments
        } else if chars_eq(&v, &chars_of("series")) {
            CustomColumnKind::Series
        } else if chars_eq(&v, &chars_of("rating")) {
            CustomColumnKind::Rating
        } else if chars_eq(&v, &chars_of("datetime")) {
            CustomColumnKind::DateTime
        } else if chars_eq(&v, &chars_of("bool")) {
            CustomColumnKind::Boolean
        } else if chars_eq(&v, &chars_of("int")) {
            CustomColumnKind::Integer
        } else if chars_eq(&v, &chars_of("float")) {
            CustomColumnKind::Float
        } else if chars_eq(&v, &chars_of("enumeration")) {
            CustomColumnKind::Enumeration
        } else if chars_eq(&v, &chars_of("composite")) {
            CustomColumnKind::Composite
        } else {
            CustomColumnKind::Unknown(value)
        }
    }
}

/// One active custom-column definition.
#[derive(Clone, Debug)]
pub struct CustomColumn {
    /// Numeric definition ID used to derive Calibre's dynamic table names.
    pub id: CustomColumnId,
    /// Programmatic label without the leading `#`.
    pub label: String,
    /// Display name.
    pub name: String,
    /// Declared data type.
    pub kind: CustomColumnKind,
    /// Whether the definition permits multiple values.
    pub is_multiple: bool,
    /// Whether Calibre considers the column editable.
    pub editable: bool,
    /// Raw JSON display configuration stored by Calibre.
    pub display: String,
    /// Whether values live in a normalized value and link table pair.
    pub normalized: bool,
}

/// Checks that every definition has a positive ID.
///
/// Returns [`Error::InvalidLibrary`] (naming `database`) otherwise.
pub fn check_definitions(definitions: &Vec<CustomColumn>, database: &str) -> (r: Result<(), Error>)
    ensures
        r is Ok <==> forall|i: int| 0 <= i < definitions@.len() ==> (#[trigger] definitions@[i]).id@ > 0,
        r matches Err(e) ==> e is InvalidLibrary,
{
    let mut i: usize = 0;
    while i < definitions.len()
        invariant
            i <= definitions@.len(),
            forall|j: int| 0 <= j < i ==> (#[trigger] definitions@[j]).id@ > 0,
        decreases definitions@.len() - i,
    {
        if definitions[i].id.get() <= 0 {
            return Err(invalid_library(database, "custom column has a non-positive ID"));
        }
        i = i + 1;
    }
    Ok(())
}

/// A label without one leading `#`.
pub open spec fn bare_label(label: Seq<char>) -> Seq<char> {
    if label.len() > 0 && label[0] == '#' {
        label.drop_first()
    } else {
        label
    }
}

/// Finds the definition with the given label; a leading `#` is accepted.
///
/// Returns [`Error::InvalidInput`] when no active column has the label.
pub fn find_definition(definitions: &Vec<CustomColumn>, label: &str) -> (r: Result<usize, Error>)
    ensures
        r matches Ok(i) ==> i < definitions@.len() && definitions@[i as int].label@ == bare_label(
            label@,
        ) && forall|j: int| 0 <= j < i ==> (#[trigger] definitions@[j]).label@ != bare_label(label@),
        r is Err <==> forall|j: int|
            0 <= j < definitions@.len() ==> (#[trigger] definitions@[j]).label@ != bare_label(
                label@,
            ),
        r matches Err(e) ==> e is InvalidInput,
{
    let c = chars_of(label);
    let bare = if c.len() > 0 && c[0] == '#' {
        skip(&c, 1)
    } else {
        c
    };
    assert(bare@ =~= bare_label(label@));
    let mut i: usize = 0;
    while i < definitions.len()
        invariant
            bare@ == bare_label(label@),
            i <= definitions@.len(),
            forall|j: int| 0 <= j < i ==> (#[trigger] definitions@[j]).label@ != bare_label(label@),
        decreases definitions@.len() - i,
    {
        if chars_eq(&chars_of(definitions[i].label.as_str()), &bare) {
            return Ok(i);
        }
        i = i + 1;
    }
    Err(invalid_input("custom column label", "unknown active custom column"))
}

/// Whether values of a kind can be read: composite and unknown kinds need
/// behaviour this crate cannot reproduce.
pub open spec fn readable_kind(kind: CustomColumnKind) -> bool {
    !(kind is Composite || kind is Unknown)
}

/// Whether values of a kind can be read (see [`readable_kind`]).
pub fn is_readable_kind(kind: &CustomColumnKind) -> (r: bool)
    ensures
        r == readable_kind(*kind),
{
    match kind {
        CustomColumnKind::Composite | CustomColumnKind::Unknown(_) => false,
        _ => true,
    }
}

/// The tables that hold a column's values and the columns they need.
#[derive(Clone, Debug)]
pub struct ColumnTables {
    /// `custom_column_<id>`.
    pub value_table: String,
    /// `books_custom_column_<id>_link`, for a normalized column.
    pub link_table: Option<String>,
    /// Whether the link table carries a series index in `extra`.
    pub series_extra: bool,
}

/// The value table name of column `id`.
pub open spec fn value_table_spec(id: int) -> Seq<char> {
    "custom_column_"@ + decimal(id)
}

/// The link table name of column `id`.
pub open spec fn link_table_spec(id: int) -> Seq<char> {
    "books_custom_column_"@ + decimal(id) + "_link"@
}

/// The tables a column's values are read from.
///
/// Returns [`Error::InvalidLibrary`] (naming `database`) for a column
/// whose ID is not positive.
pub fn column_tables(definition: &CustomColumn, database: &str) -> (r: Result<ColumnTables, Error>)
    ensures
        r is Ok <==> definition.id@ > 0,
        r matches Ok(t) ==> t.value_table@ == value_table_spec(definition.id@ as int) && (
        definition.normalized ==> (t.link_table matches Some(l) && l@ == link_table_spec(
            definition.id@ as int,
        ))) && (!definition.normalized ==> t.link_table is None) && t.series_extra == (
        definition.normalized && definition.kind is Series),
        r matches Err(e) ==> e is InvalidLibrary,
{
    let id = definition.id.get();
    if id <= 0 {
        return Err(invalid_library(database, "custom column has a non-positive ID"));
    }
    proof {
        reveal_strlit("custom_column_");
        reveal_strlit("books_custom_column_");
        reveal_strlit("_link");
    }
    let digits = decimal_chars(id);
    let mut value = chars_of("custom_column_");
    append_chars(&mut value, &digits);
    let link = if definition.normalized {
        let mut l = chars_of("books_custom_column_");
        append_chars(&mut l, &digits);
        crate::text::append_str(&mut l, "_link");
        Some(string_of(&l))
    } else {
        None
    };
    let series_extra = definition.normalized && match definition.kind {
        CustomColumnKind::Series => true,
        _ => false,
    };
    Ok(ColumnTables { value_table: string_of(&value), link_table: link, series_extra })
}

/// A table has a column with the given name.
pub open spec fn has_column(existing: Seq<String>, name: Seq<char>) -> bool {
    exists|j: int| 0 <= j < existing.len() && (#[trigger] existing[j])@ == name
}

/// The first required column a table lacks, if any.
pub fn missing_column(existing: &Vec<String>, required: &Vec<String>) -> (r: Option<usize>)
    ensures
        r matches Some(k) ==> k < required@.len() && !has_column(existing@, required@[k as int]@)
            && forall|m: int| 0 <= m < k ==> has_column(existing@, (#[trigger] required@[m])@),
        r is None ==> forall|m: int|
            0 <= m < required@.len() ==> has_column(existing@, (#[trigger] required@[m])@),
{
    let mut k: usize = 0;
    while k < required.len()
        invariant
            k <= required@.len(),
            forall|m: int| 0 <= m < k ==> has_column(existing@, (#[trigger] required@[m])@),
        decreases required@.len() - k,
    {
        let mut found = false;
        let mut j: usize = 0;
        while j < existing.len()
            invariant
                j <= existing@.len(),
                k < required@.len(),
                found ==> has_column(existing@, required@[k as int]@),
                !found ==> forall|x: int| 0 <= x < j ==> (#[trigger] existing@[x])@ != required@[k as int]@,
            decreases existing@.len() - j,
        {
            if !found && existing[j] == required[k] {
                found = true;
            }
            j = j + 1;
        }
        if !found {
            return Some(k);
        }
        k = k + 1;
    }
    None
}

/// Read-only access to custom-column definitions and values.
#[derive(Debug)]
pub struct CustomColumns {
    library: Library,
}

impl Clone for CustomColumns {
    fn clone(&self) -> (r: Self)
        ensures
            r.library_spec() == self.library_spec(),
    {
        CustomColumns { library: self.library.clone() }
    }
}

impl CustomColumns {
    /// The library these operations act on.
    pub closed spec fn library_spec(&self) -> Library {
        self.library
    }

    pub(crate) fn new(library: Library) -> (r: Self)
        ensures
            r.library_spec() == library,
    {
        CustomColumns { library }
    }

    /// The library these operations act on.
    pub fn library(&self) -> (r: &Library)
        ensures
            *r == self.library_spec(),
    {
        &self.library
    }
}

/// A value stored in a custom-column table, as plain data. A real number
/// is only marked: the caller reads floating-point values itself.
#[derive(Clone, Debug)]
pub enum StoredValue {
    /// `NULL`.
    Null,
    /// An integer.
    Integer(i64),
    /// A real number.
    Real,
    /// Text.
    Text(String),
    /// A blob.
    Blob,
}

/// A custom-column value as the core reads it; a floating-point column is
/// only marked, its numbers being read by the caller, and a series carries
/// only its name.
#[derive(Clone, Debug)]
pub enum ColumnValue {
    /// One text value.
    Text(String),
    /// Several text values in order.
    TextList(Vec<String>),
    /// One integer.
    Integer(i64),
    /// Several integers in order.
    IntegerList(Vec<i64>),
    /// Floating-point values, all checked to be numbers.
    Real,
    /// A three-state boolean.
    Boolean(Option<bool>),
    /// A timestamp as stored.
    DateTime(String),
    /// A series name.
    Series(String),
    /// A kind whose values need behaviour this library cannot reproduce.
    Unavailable,
}

/// Every stored value is text.
pub open spec fn all_text(values: Seq<StoredValue>) -> bool {
    forall|i: int| 0 <= i < values.len() ==> (#[trigger] values[i]) is Text
}

/// Every stored value is an integer.
pub open spec fn all_integer(values: Seq<StoredValue>) -> bool {
    forall|i: int| 0 <= i < values.len() ==> (#[trigger] values[i]) is Integer
}

/// Every stored value is a number.
pub open spec fn all_number(values: Seq<StoredValue>) -> bool {
    forall|i: int| 0 <= i < values.len() ==> (#[trigger] values[i]) is Integer || values[i] is Real
}

/// Whether the stored values of a column can be read as its kind: text
/// kinds need every value to be text, integer kinds every value an integer,
/// float kinds every value a number; a series and a timestamp need the
/// first value to be text, a boolean needs it `NULL` or an integer.
pub open spec fn values_fit(kind: CustomColumnKind, values: Seq<StoredValue>) -> bool {
    values.len() == 0 || match kind {
        CustomColumnKind::Text | CustomColumnKind::Comments | CustomColumnKind::Enumeration => all_text(values),
        CustomColumnKind::Rating | CustomColumnKind::Integer => all_integer(values),
        CustomColumnKind::Float => all_number(values),
        CustomColumnKind::Series | CustomColumnKind::DateTime => values[0] is Text,
        CustomColumnKind::Boolean => values[0] is Null || values[0] is Integer,
        _ => true,
    }
}

/// The text of a stored value that is text.
pub open spec fn text_of(v: StoredValue) -> Seq<char> {
    match v {
        StoredValue::Text(t) => t@,
        _ => Seq::empty(),
    }
}

/// The integer of a stored value that is one.
pub open spec fn integer_of(v: StoredValue) -> i64 {
    match v {
        StoredValue::Integer(x) => x,
        _ => 0,
    }
}

/// The value read from a column's non-empty stored values: a list for a
/// multiple-valued text or integer column, else the first value; a
/// boolean is `None` for `NULL` and whether the integer is nonzero.
pub open spec fn value_matches(kind: CustomColumnKind, multiple: bool, values: Seq<StoredValue>, v: ColumnValue) -> bool {
    match kind {
        CustomColumnKind::Text | CustomColumnKind::Comments | CustomColumnKind::Enumeration => if multiple {
            v matches ColumnValue::TextList(l) && l@.len() == values.len() && forall|i: int|
                0 <= i < values.len() ==> (#[trigger] l@[i])@ == text_of(values[i])
        } else {
            v matches ColumnValue::Text(t) && t@ == text_of(values[0])
        },
        CustomColumnKind::Rating | CustomColumnKind::Integer => if multiple {
            v matches ColumnValue::IntegerList(l) && l@.len() == values.len() && forall|i: int|
                0 <= i < values.len() ==> #[trigger] l@[i] == integer_of(values[i])
        } else {
            v == ColumnValue::Integer(integer_of(values[0]))
        },
        CustomColumnKind::Float => v is Real,
        CustomColumnKind::Series => v matches ColumnValue::Series(n) && n@ == text_of(values[0]),
        CustomColumnKind::DateTime => v matches ColumnValue::DateTime(t) && t@ == text_of(values[0]),
        CustomColumnKind::Boolean => v == ColumnValue::Boolean(
            if values[0] is Null {
                None
            } else {
                Some(integer_of(values[0]) != 0)
            },
        ),
        _ => v is Unavailable,
    }
}

fn type_error(database: &str) -> (e: Error)
    ensures
        e matches Error::InvalidLibrary { path, .. } && path@ == database@,
{
    invalid_library(database, "custom column value has an unexpected type")
}

fn texts_of(values: &Vec<StoredValue>, database: &str) -> (r: Result<Vec<String>, Error>)
    ensures
        r is Ok <==> all_text(values@),
        r matches Ok(l) ==> l@.len() == values@.len() && forall|i: int|
            0 <= i < values@.len() ==> (#[trigger] l@[i])@ == text_of(values@[i]),
        r matches Err(e) ==> e matches Error::InvalidLibrary { path, .. } && path@ == database@,
{
    let mut out: Vec<String> = Vec::new();
    let mut i: usize = 0;
    while i < values.len()
        invariant
            i <= values@.len(),
            out@.len() == i,
            forall|j: int| 0 <= j < i ==> (#[trigger] values@[j]) is Text,
            forall|j: int| 0 <= j < i ==> (#[trigger] out@[j])@ == text_of(values@[j]),
        decreases values@.len() - i,
    {
        match &values[i] {
            StoredValue::Text(t) => out.push(t.clone()),
            _ => return Err(type_error(database)),
        }
        i = i + 1;
    }
    Ok(out)
}

fn integers_of(values: &Vec<StoredValue>, database: &str) -> (r: Result<Vec<i64>, Error>)
    ensures
        r is Ok <==> all_integer(values@),
        r matches Ok(l) ==> l@.len() == values@.len() && forall|i: int|
            0 <= i < values@.len() ==> #[trigger] l@[i] == integer_of(values@[i]),
        r matches Err(e) ==> e matches Error::InvalidLibrary { path, .. } && path@ == database@,
{
    let mut out: Vec<i64> = Vec::new();
    let mut i: usize = 0;
    while i < values.len()
        invariant
            i <= values@.len(),
            out@.len() == i,
            forall|j: int| 0 <= j < i ==> (#[trigger] values@[j]) is Integer,
            forall|j: int| 0 <= j < i ==> #[trigger] out@[j] == integer_of(values@[j]),
        decreases values@.len() - i,
    {
        match &values[i] {
            StoredValue::Integer(x) => out.push(*x),
            _ => return Err(type_error(database)),
        }
        i = i + 1;
    }
    Ok(out)
}

/// Reads a column's value from its stored values (see [`values_fit`] and
/// [`value_matches`]); `None` when nothing is stored.
///
/// Returns [`Error::InvalidLibrary`] naming `database` for a value of
/// another type than the kind needs.
pub fn column_value(definition: &CustomColumn, values: &Vec<StoredValue>, database: &str) -> (r: Result<
    Option<ColumnValue>,
    Error,
>)
    ensures
        r is Ok <==> values_fit(definition.kind, values@),
        r matches Ok(None) ==> values@.len() == 0,
        r matches Ok(Some(v)) ==> values@.len() > 0 && value_matches(
            definition.kind,
            definition.is_multiple,
            values@,
            v,
        ),
        r matches Err(e) ==> e matches Error::InvalidLibrary { path, .. } && path@ == database@,
{
    if values.len() == 0 {
        return Ok(None);
    }
    let value = match &definition.kind {
        CustomColumnKind::Text | CustomColumnKind::Comments | CustomColumnKind::Enumeration => {
            let mut texts = texts_of(values, database)?;
            if definition.is_multiple {
                ColumnValue::TextList(texts)
            } else {
                ColumnValue::Text(texts.swap_remove(0))
            }
        },
        CustomColumnKind::Rating | CustomColumnKind::Integer => {
            let numbers = integers_of(values, database)?;
            if definition.is_multiple {
                ColumnValue::IntegerList(numbers)
            } else {
                ColumnValue::Integer(numbers[0])
            }
        },
        CustomColumnKind::Float => {
            let mut i: usize = 0;
            while i < values.len()
                invariant
                    i <= values@.len(),
                    values@.len() > 0,
                    definition.kind is Float,
                    forall|j: int| 0 <= j < i ==> (#[trigger] values@[j]) is Integer || values@[j] is Real,
                decreases values@.len() - i,
            {
                match &values[i] {
                    StoredValue::Integer(_) | StoredValue::Real => {},
                    _ => {
                        assert(!(values@[i as int] is Integer || values@[i as int] is Real));
                        assert(!all_number(values@));
                        return Err(type_error(database));
                    },
                }
                i = i + 1;
            }
            ColumnValue::Real
        },
        CustomColumnKind::Series => match &values[0] {
            StoredValue::Text(t) => ColumnValue::Series(t.clone()),
            _ => return Err(type_error(database)),
        },
        CustomColumnKind::DateTime => match &values[0] {
            StoredValue::Text(t) => ColumnValue::DateTime(t.clone()),
            _ => return Err(type_error(database)),
        },
        CustomColumnKind::Boolean => match &values[0] {
            StoredValue::Null => ColumnValue::Boolean(None),
            StoredValue::Integer(x) => ColumnValue::Boolean(Some(*x != 0)),
            _ => return Err(type_error(database)),
        },
        _ => ColumnValue::Unavailable,
    };
    Ok(Some(value))
}

} // verus!
