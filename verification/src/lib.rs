//! Native, synchronous access to existing Calibre libraries: the verified core.
//!
//! The library holds the rules of a Calibre library as plain values: metadata
//! models, path containment and sanitisation, sort values, recovery-journal
//! encodings and the decisions that resolve interrupted writes, trash layout,
//! audit findings and the OPF metadata document.

pub mod audit;
pub mod books;
pub mod covers;
pub mod custom_columns;
pub mod dates;
pub mod error;
pub mod formats;
pub mod ids;
pub mod journal;
pub mod library;
pub mod model;
pub mod opf;
pub mod ordering;
pub mod paths;
pub mod query;
pub mod reconcile;
pub mod schema;
pub mod recovery;
pub mod sorting;
pub mod text;
pub mod trash;

pub use audit::{AuditIssue, AuditIssueKind, AuditReport, Auditor};
pub use books::Books;
pub use covers::Covers;
pub use custom_columns::{CustomColumn, CustomColumnKind, CustomColumns};
pub use error::{Error, Result};
pub use formats::Formats;
pub use ids::{AuthorId, BookId, CustomColumnId, FormatId};
pub use library::{
    Capabilities, Compatibility, Library, LibraryInspection, OpenMode, OpenOptions,
};
pub use model::{
    Author, BookFilter, BookOrder, BookQuery, BookSort, DeletionMode, Format, FormatFile,
    Identifier, Language, PageRequest, Publisher, Rating, SortDirection, Tag,
};
pub use recovery::{RecoveryEntry, RecoveryOperation, RecoveryReport};
pub use trash::{Trash, TrashContents, TrashEntry, TrashEntryKind, DEFAULT_TRASH_EXPIRY};
