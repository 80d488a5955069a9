use vstd::prelude::*;

verus! {

/// A stable numeric book ID within one library.
#[derive(Clone, Copy, Debug, PartialEq, Eq, Structural, Hash, PartialOrd, Ord)]
pub struct BookId(i64);

impl View for BookId {
    type V = i64;

    closed spec fn view(&self) -> i64 {
        self.0
    }
}

impl BookId {
    /// Constructs an ID from its database representation.
    pub fn new(value: i64) -> (id: Self)
        ensures
            id@ == value,
    {
        BookId(value)
    }

    /// Returns the database representation.
    pub fn get(self) -> (value: i64)
        ensures
            value == self@,
    {
        self.0
    }
}

/// A stable numeric author ID within one library.
#[derive(Clone, Copy, Debug, PartialEq, Eq, Structural, Hash, PartialOrd, Ord)]
pub struct AuthorId(i64);

impl View for AuthorId {
    type V = i64;

    closed spec fn view(&self) -> i64 {
        self.0
    }
}

impl AuthorId {
    /// Constructs an ID from its database representation.
    pub fn new(value: i64) -> (id: Self)
        ensures
            id@ == value,
    {
        AuthorId(value)
    }

    /// Returns the database representation.
    pub fn get(self) -> (value: i64)
        ensures
            value == self@,
    {
        self.0
    }
}

/// A stable numeric format-row ID within one library.
#[derive(Clone, Copy, Debug, PartialEq, Eq, Structural, Hash, PartialOrd, Ord)]
pub struct FormatId(i64);

impl View for FormatId {
    type V = i64;

    closed spec fn view(&self) -> i64 {
        self.0
    }
}

impl FormatId {
    /// Constructs an ID from its database representation.
    pub fn new(value: i64) -> (id: Self)
        ensures
            id@ == value,
    {
        FormatId(value)
    }

    /// Returns the database representation.
    pub fn get(self) -> (value: i64)
        ensures
            value == self@,
    {
        self.0
    }
}

/// A stable numeric custom-column ID within one library.
#[derive(Clone, Copy, Debug, PartialEq, Eq, Structural, Hash, PartialOrd, Ord)]
pub struct CustomColumnId(i64);

impl View for CustomColumnId {
    type V = i64;

    closed spec fn view(&self) -> i64 {
        self.0
    }
}

impl CustomColumnId {
    /// Constructs an ID from its database representation.
    pub fn new(value: i64) -> (id: Self)
        ensures
            id@ == value,
    {
        CustomColumnId(value)
    }

    /// Returns the database representation.
    pub fn get(self) -> (value: i64)
        ensures
            value == self@,
    {
        self.0
    }
}

} // verus!
