use crate::books::views;
use crate::custom_columns::{has_column, missing_column};
use crate::text::{append_str, chars_of, string_of};
use vstd::prelude::*;

verus! {

/// A table that every supported `metadata.db` holds, with the columns it
/// must have.
#[derive(Clone, Debug)]
pub struct TableRequirement {
    /// Table name.
    pub table: String,
    /// Required column names.
    pub columns: Vec<String>,
}

/// The tables and columns of schema version 27 that this library reads and
/// writes, in the order they are checked.
pub open spec fn required_tables() -> Seq<(Seq<char>, Seq<Seq<char>>)> {
    seq![
        ("books"@, seq!["id"@, "title"@, "sort"@, "timestamp"@, "pubdate"@, "series_index"@, "author_sort"@, "path"@, "uuid"@, "has_cover"@, "last_modified"@]),
        ("authors"@, seq!["id"@, "name"@, "sort"@, "link"@]),
        ("tags"@, seq!["id"@, "name"@, "link"@]),
        ("series"@, seq!["id"@, "name"@, "sort"@, "link"@]),
        ("publishers"@, seq!["id"@, "name"@, "sort"@, "link"@]),
        ("languages"@, seq!["id"@, "lang_code"@, "link"@]),
        ("ratings"@, seq!["id"@, "rating"@, "link"@]),
        ("comments"@, seq!["book"@, "text"@]),
        ("identifiers"@, seq!["book"@, "type"@, "val"@]),
        ("data"@, seq!["id"@, "book"@, "format"@, "uncompressed_size"@, "name"@]),
        ("books_authors_link"@, seq!["id"@, "book"@, "author"@]),
        ("books_tags_link"@, seq!["id"@, "book"@, "tag"@]),
        ("books_series_link"@, seq!["id"@, "book"@, "series"@]),
        ("books_publishers_link"@, seq!["id"@, "book"@, "publisher"@]),
        ("books_languages_link"@, seq!["id"@, "book"@, "lang_code"@, "item_order"@]),
        ("books_ratings_link"@, seq!["id"@, "book"@, "rating"@]),
        ("metadata_dirtied"@, seq!["book"@]),
        ("books_pages_link"@, seq!["book"@, "needs_scan"@]),
    ]
}
fn requirement_0() -> (r: TableRequirement)
    ensures
        r.table@ == required_tables()[0].0,
        views(r.columns@) == required_tables()[0].1,
{
    proof {
        reveal_strlit("books");
        reveal_strlit("author_sort");
        reveal_strlit("has_cover");
        reveal_strlit("id");
        reveal_strlit("last_modified");
        reveal_strlit("path");
        reveal_strlit("pubdate");
        reveal_strlit("series_index");
        reveal_strlit("sort");
        reveal_strlit("timestamp");
        reveal_strlit("title");
        reveal_strlit("uuid");
    }
    let mut columns: Vec<String> = Vec::new();
    columns.push("id".to_owned());
    columns.push("title".to_owned());
    columns.push("sort".to_owned());
    columns.push("timestamp".to_owned());
    columns.push("pubdate".to_owned());
    columns.push("series_index".to_owned());
    columns.push("author_sort".to_owned());
    columns.push("path".to_owned());
    columns.push("uuid".to_owned());
    columns.push("has_cover".to_owned());
    columns.push("last_modified".to_owned());
    assert(views(columns@) =~= required_tables()[0].1);
    TableRequirement { table: "books".to_owned(), columns }
}
fn requirement_1() -> (r: TableRequirement)
    ensures
        r.table@ == required_tables()[1].0,
        views(r.columns@) == required_tables()[1].1,
{
    proof {
        reveal_strlit("authors");
        reveal_strlit("id");
        reveal_strlit("link");
        reveal_strlit("name");
        reveal_strlit("sort");
    }
    let mut columns: Vec<String> = Vec::new();
    columns.push("id".to_owned());
    columns.push("name".to_owned());
    columns.push("sort".to_owned());
    columns.push("link".to_owned());
    assert(views(columns@) =~= required_tables()[1].1);
    TableRequirement { table: "authors".to_owned(), columns }
}
fn requirement_2() -> (r: TableRequirement)
    ensures
        r.table@ == required_tables()[2].0,
        views(r.columns@) == required_tables()[2].1,
{
    proof {
        reveal_strlit("tags");
        reveal_strlit("id");
        reveal_strlit("link");
        reveal_strlit("name");
    }
    let mut columns: Vec<String> = Vec::new();
    columns.push("id".to_owned());
    columns.push("name".to_owned());
    columns.push("link".to_owned());
    assert(views(columns@) =~= required_tables()[2].1);
    TableRequirement { table: "tags".to_owned(), columns }
}
fn requirement_3() -> (r: TableRequirement)
    ensures
        r.table@ == required_tables()[3].0,
        views(r.columns@) == required_tables()[3].1,
{
    proof {
        reveal_strlit("series");
        reveal_strlit("id");
        reveal_strlit("link");
        reveal_strlit("name");
        reveal_strlit("sort");
    }
    let mut columns: Vec<String> = Vec::new();
    columns.push("id".to_owned());
    columns.push("name".to_owned());
    columns.push("sort".to_owned());
    columns.push("link".to_owned());
    assert(views(columns@) =~= required_tables()[3].1);
    TableRequirement { table: "series".to_owned(), columns }
}
fn requirement_4() -> (r: TableRequirement)
    ensures
        r.table@ == required_tables()[4].0,
        views(r.columns@) == required_tables()[4].1,
{
    proof {
        reveal_strlit("publishers");
        reveal_strlit("id");
        reveal_strlit("link");
        reveal_strlit("name");
        reveal_strlit("sort");
    }
    let mut columns: Vec<String> = Vec::new();
    columns.push("id".to_owned());
    columns.push("name".to_owned());
    columns.push("sort".to_owned());
    columns.push("link".to_owned());
    assert(views(columns@) =~= required_tables()[4].1);
    TableRequirement { table: "publishers".to_owned(), columns }
}
fn requirement_5() -> (r: TableRequirement)
    ensures
        r.table@ == required_tables()[5].0,
        views(r.columns@) == required_tables()[5].1,
{
    proof {
        reveal_strlit("languages");
        reveal_strlit("id");
        reveal_strlit("lang_code");
        reveal_strlit("link");
    }
    let mut columns: Vec<String> = Vec::new();
    columns.push("id".to_owned());
    columns.push("lang_code".to_owned());
    columns.push("link".to_owned());
    assert(views(columns@) =~= required_tables()[5].1);
    TableRequirement { table: "languages".to_owned(), columns }
}
fn requirement_6() -> (r: TableRequirement)
    ensures
        r.table@ == required_tables()[6].0,
        views(r.columns@) == required_tables()[6].1,
{
    proof {
        reveal_strlit("ratings");
        reveal_strlit("id");
        reveal_strlit("link");
        reveal_strlit("rating");
    }
    let mut columns: Vec<String> = Vec::new();
    columns.push("id".to_owned());
    columns.push("rating".to_owned());
    columns.push("link".to_owned());
    assert(views(columns@) =~= required_tables()[6].1);
    TableRequirement { table: "ratings".to_owned(), columns }
}
fn requirement_7() -> (r: TableRequirement)
    ensures
        r.table@ == required_tables()[7].0,
        views(r.columns@) == required_tables()[7].1,
{
    proof {
        reveal_strlit("comments");
        reveal_strlit("book");
        reveal_strlit("text");
    }
    let mut columns: Vec<String> = Vec::new();
    columns.push("book".to_owned());
    columns.push("text".to_owned());
    assert(views(columns@) =~= required_tables()[7].1);
    TableRequirement { table: "comments".to_owned(), columns }
}
fn requirement_8() -> (r: TableRequirement)
    ensures
        r.table@ == required_tables()[8].0,
        views(r.columns@) == required_tables()[8].1,
{
    proof {
        reveal_strlit("identifiers");
        reveal_strlit("book");
        reveal_strlit("type");
        reveal_strlit("val");
    }
    let mut columns: Vec<String> = Vec::new();
    columns.push("book".to_owned());
    columns.push("type".to_owned());
    columns.push("val".to_owned());
    assert(views(columns@) =~= required_tables()[8].1);
    TableRequirement { table: "identifiers".to_owned(), columns }
}
fn requirement_9() -> (r: TableRequirement)
    ensures
        r.table@ == required_tables()[9].0,
        views(r.columns@) == required_tables()[9].1,
{
    proof {
        reveal_strlit("data");
        reveal_strlit("book");
        reveal_strlit("format");
        reveal_strlit("id");
        reveal_strlit("name");
        reveal_strlit("uncompressed_size");
    }
    let mut columns: Vec<String> = Vec::new();
    columns.push("id".to_owned());
    columns.push("book".to_owned());
    columns.push("format".to_owned());
    columns.push("uncompressed_size".to_owned());
    columns.push("name".to_owned());
    assert(views(columns@) =~= required_tables()[9].1);
    TableRequirement { table: "data".to_owned(), columns }
}
fn requirement_10() -> (r: TableRequirement)
    ensures
        r.table@ == required_tables()[10].0,
        views(r.columns@) == required_tables()[10].1,
{
    proof {
        reveal_strlit("books_authors_link");
        reveal_strlit("author");
        reveal_strlit("book");
        reveal_strlit("id");
    }
    let mut columns: Vec<String> = Vec::new();
    columns.push("id".to_owned());
    columns.push("book".to_owned());
    columns.push("author".to_owned());
    assert(views(columns@) =~= required_tables()[10].1);
    TableRequirement { table: "books_authors_link".to_owned(), columns }
}
fn requirement_11() -> (r: TableRequirement)
    ensures
        r.table@ == required_tables()[11].0,
        views(r.columns@) == required_tables()[11].1,
{
    proof {
        reveal_strlit("books_tags_link");
        reveal_strlit("book");
        reveal_strlit("id");
        reveal_strlit("tag");
    }
    let mut columns: Vec<String> = Vec::new();
    columns.push("id".to_owned());
    columns.push("book".to_owned());
    columns.push("tag".to_owned());
    assert(views(columns@) =~= required_tables()[11].1);
    TableRequirement { table: "books_tags_link".to_owned(), columns }
}
fn requirement_12() -> (r: TableRequirement)
    ensures
        r.table@ == required_tables()[12].0,
        views(r.columns@) == required_tables()[12].1,
{
    proof {
        reveal_strlit("books_series_link");
        reveal_strlit("book");
        reveal_strlit("id");
        reveal_strlit("series");
    }
    let mut columns: Vec<String> = Vec::new();
    columns.push("id".to_owned());
    columns.push("book".to_owned());
    columns.push("series".to_owned());
    assert(views(columns@) =~= required_tables()[12].1);
    TableRequirement { table: "books_series_link".to_owned(), columns }
}
fn requirement_13() -> (r: TableRequirement)
    ensures
        r.table@ == required_tables()[13].0,
        views(r.columns@) == required_tables()[13].1,
{
    proof {
        reveal_strlit("books_publishers_link");
        reveal_strlit("book");
        reveal_strlit("id");
        reveal_strlit("publisher");
    }
    let mut columns: Vec<String> = Vec::new();
    columns.push("id".to_owned());
    columns.push("book".to_owned());
    columns.push("publisher".to_owned());
    assert(views(columns@) =~= required_tables()[13].1);
    TableRequirement { table: "books_publishers_link".to_owned(), columns }
}
fn requirement_14() -> (r: TableRequirement)
    ensures
        r.table@ == required_tables()[14].0,
        views(r.columns@) == required_tables()[14].1,
{
    proof {
        reveal_strlit("books_languages_link");
        reveal_strlit("book");
        reveal_strlit("id");
        reveal_strlit("item_order");
        reveal_strlit("lang_code");
    }
    let mut columns: Vec<String> = Vec::new();
    columns.push("id".to_owned());
    columns.push("book".to_owned());
    columns.push("lang_code".to_owned());
    columns.push("item_order".to_owned());
    assert(views(columns@) =~= required_tables()[14].1);
    TableRequirement { table: "books_languages_link".to_owned(), columns }
}
fn requirement_15() -> (r: TableRequirement)
    ensures
        r.table@ == required_tables()[15].0,
        views(r.columns@) == required_tables()[15].1,
{
    proof {
        reveal_strlit("books_ratings_link");
        reveal_strlit("book");
        reveal_strlit("id");
        reveal_strlit("rating");
    }
    let mut columns: Vec<String> = Vec::new();
    columns.push("id".to_owned());
    columns.push("book".to_owned());
    columns.push("rating".to_owned());
    assert(views(columns@) =~= required_tables()[15].1);
    TableRequirement { table: "books_ratings_link".to_owned(), columns }
}
fn requirement_16() -> (r: TableRequirement)
    ensures
        r.table@ == required_tables()[16].0,
        views(r.columns@) == required_tables()[16].1,
{
    proof {
        reveal_strlit("metadata_dirtied");
        reveal_strlit("book");
    }
    let mut columns: Vec<String> = Vec::new();
    columns.push("book".to_owned());
    assert(views(columns@) =~= required_tables()[16].1);
    TableRequirement { table: "metadata_dirtied".to_owned(), columns }
}
fn requirement_17() -> (r: TableRequirement)
    ensures
        r.table@ == required_tables()[17].0,
        views(r.columns@) == required_tables()[17].1,
{
    proof {
        reveal_strlit("books_pages_link");
        reveal_strlit("book");
        reveal_strlit("needs_scan");
    }
    let mut columns: Vec<String> = Vec::new();
    columns.push("book".to_owned());
    columns.push("needs_scan".to_owned());
    assert(views(columns@) =~= required_tables()[17].1);
    TableRequirement { table: "books_pages_link".to_owned(), columns }
}
/// The tables and columns every supported `metadata.db` holds (see
/// [`required_tables`]).
pub fn schema_requirements() -> (r: Vec<TableRequirement>)
    ensures
        r@.len() == required_tables().len(),
        forall|i: int|
            0 <= i < r@.len() ==> (#[trigger] r@[i]).table@ == required_tables()[i].0 && views(
                r@[i].columns@,
            ) == required_tables()[i].1,
{
    let mut r: Vec<TableRequirement> = Vec::new();
    r.push(requirement_0());
    r.push(requirement_1());
    r.push(requirement_2());
    r.push(requirement_3());
    r.push(requirement_4());
    r.push(requirement_5());
    r.push(requirement_6());
    r.push(requirement_7());
    r.push(requirement_8());
    r.push(requirement_9());
    r.push(requirement_10());
    r.push(requirement_11());
    r.push(requirement_12());
    r.push(requirement_13());
    r.push(requirement_14());
    r.push(requirement_15());
    r.push(requirement_16());
    r.push(requirement_17());
    r
}

/// Every required column of every required table is among the table's
/// existing columns (`existing`, one list per required table).
pub open spec fn schema_complete(existing: Seq<Seq<String>>) -> bool {
    forall|i: int, k: int|
        0 <= i < required_tables().len() && 0 <= k < required_tables()[i].1.len() ==> has_column(
            #[trigger] existing[i],
            #[trigger] required_tables()[i].1[k],
        )
}

/// The first required column the database lacks, as `table.column`, given
/// the existing columns of each required table in the order of
/// [`required_tables`]; `None` when none is missing.
pub fn missing_required_column(existing: &Vec<Vec<String>>) -> (r: Option<String>)
    requires
        existing@.len() == required_tables().len(),
    ensures
        r is None <==> schema_complete(existing@.map_values(|v: Vec<String>| v@)),
        r matches Some(s) ==> exists|i: int, k: int|
            0 <= i < required_tables().len() && 0 <= k < required_tables()[i].1.len() && !has_column(
                existing@[i]@,
                required_tables()[i].1[k],
            ) && s@ == required_tables()[i].0 + "."@ + required_tables()[i].1[k],
{
    let requirements = schema_requirements();
    let ghost e = existing@.map_values(|v: Vec<String>| v@);
    proof {
        reveal_strlit(".");
    }
    let mut i: usize = 0;
    while i < requirements.len()
        invariant
            requirements@.len() == required_tables().len(),
            existing@.len() == required_tables().len(),
            e == existing@.map_values(|v: Vec<String>| v@),
            forall|j: int|
                0 <= j < requirements@.len() ==> (#[trigger] requirements@[j]).table@
                    == required_tables()[j].0 && views(requirements@[j].columns@)
                    == required_tables()[j].1,
            i <= requirements@.len(),
            forall|j: int, k: int|
                0 <= j < i && 0 <= k < required_tables()[j].1.len() ==> has_column(
                    #[trigger] e[j],
                    #[trigger] required_tables()[j].1[k],
                ),
        decreases requirements@.len() - i,
    {
        let requirement = &requirements[i];
        assert(views(requirement.columns@) == required_tables()[i as int].1);
        match missing_column(&existing[i], &requirement.columns) {
            Some(k) => {
                let mut text = chars_of(requirement.table.as_str());
                append_str(&mut text, ".");
                append_str(&mut text, requirement.columns[k].as_str());
                let s = string_of(&text);
                proof {
                    assert(required_tables()[i as int].1[k as int] == requirement.columns@[k as int]@);
                    assert(s@ == required_tables()[i as int].0 + "."@ + required_tables()[i as int].1[
                        k as int]);
                    assert(!schema_complete(e)) by {
                        assert(e[i as int] == existing@[i as int]@);
                    }
                }
                return Some(s);
            },
            None => {
                proof {
                    assert forall|k: int| 0 <= k < required_tables()[i as int].1.len() implies has_column(
                        e[i as int],
                        required_tables()[i as int].1[k],
                    ) by {
                        assert(e[i as int] == existing@[i as int]@);
                        assert(required_tables()[i as int].1[k] == requirement.columns@[k]@);
                    }
                }
            },
        }
        i = i + 1;
    }
    None
}

} // verus!
