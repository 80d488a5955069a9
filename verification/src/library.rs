use crate::audit::Auditor;
use crate::books::Books;
use crate::covers::Covers;
use crate::custom_columns::CustomColumns;
use crate::error::{invalid_library, unsupported, Error};
use crate::formats::Formats;
use crate::trash::Trash;
use vstd::prelude::*;

verus! {

/// The only Calibre schema version this library opens.
pub const SUPPORTED_SCHEMA_VERSION: u32 = 27;

/// Calibre's `PRAGMA application_id` (`"cali"`).
pub const CALIBRE_APPLICATION_ID: u32 = 0x6361_6c69;

/// Access mode for an opened library.
#[derive(Clone, Copy, Debug, PartialEq, Eq, Structural)]
pub enum OpenMode {
    /// `SQLite` and book files are never intentionally modified.
    ReadOnly,
    /// Proven write operations are enabled.
    ReadWrite,
}

/// Options controlling library opening.
#[derive(Clone, Copy, Debug, PartialEq, Eq, Structural)]
pub struct OpenOptions {
    /// Selected access mode.
    pub mode: OpenMode,
    /// `SQLite`'s busy timeout in milliseconds.
    pub busy_timeout_ms: u64,
}

impl OpenOptions {
    /// Creates conservative read-only options with a five-second busy timeout.
    pub fn new() -> (r: Self)
        ensures
            r.mode == OpenMode::ReadOnly,
            r.busy_timeout_ms == 5000,
    {
        OpenOptions { mode: OpenMode::ReadOnly, busy_timeout_ms: 5000 }
    }

    /// Enables or disables read-write mode.
    pub fn read_write(self, enabled: bool) -> (r: Self)
        ensures
            r.mode == (if enabled {
                OpenMode::ReadWrite
            } else {
                OpenMode::ReadOnly
            }),
            r.busy_timeout_ms == self.busy_timeout_ms,
    {
        OpenOptions {
            mode: if enabled {
                OpenMode::ReadWrite
            } else {
                OpenMode::ReadOnly
            },
            busy_timeout_ms: self.busy_timeout_ms,
        }
    }

    /// Sets `SQLite`'s busy timeout, in milliseconds.
    pub fn busy_timeout(self, timeout_ms: u64) -> (r: Self)
        ensures
            r.mode == self.mode,
            r.busy_timeout_ms == timeout_ms,
    {
        OpenOptions { mode: self.mode, busy_timeout_ms: timeout_ms }
    }
}

impl Default for OpenOptions {
    fn default() -> (r: Self)
        ensures
            r.mode == OpenMode::ReadOnly,
            r.busy_timeout_ms == 5000,
    {
        Self::new()
    }
}

/// Schema compatibility details.
#[derive(Clone, Copy, Debug, PartialEq, Eq)]
pub struct Compatibility {
    /// Detected `PRAGMA user_version`.
    pub schema_version: u32,
    /// Detected `PRAGMA application_id`.
    pub application_id: u32,
    /// Human-readable supported-version policy.
    pub supported_schema_versions: &'static str,
}

/// Operation-level capabilities for an opened library.
#[derive(Clone, Copy, Debug, PartialEq, Eq, Structural)]
pub struct Capabilities {
    /// Core metadata can be read.
    pub read_books: bool,
    /// Core book records and relationships can be written.
    pub write_books: bool,
    /// Formats can be added, replaced, read, and removed.
    pub write_formats: bool,
    /// Covers can be added, replaced, read, and removed.
    pub write_covers: bool,
    /// Permanent deletion is available for libraries without deferred state.
    pub permanent_delete: bool,
    /// Calibre-compatible trash writes are available.
    pub calibre_trash: bool,
    /// Custom-column definitions and stored values can be read.
    pub read_custom_columns: bool,
    /// Custom-column definitions and stored values can be written.
    pub write_custom_columns: bool,
    /// Durable recovery records are waiting to be resolved.
    pub recovery_required: bool,
}

/// What a read-write handle may do, given the library's deferred state.
pub open spec fn capabilities_spec(
    mode: OpenMode,
    recovery_required: bool,
    full_text_search: bool,
    active_custom_columns: bool,
) -> Capabilities {
    let writable = mode == OpenMode::ReadWrite && !recovery_required;
    Capabilities {
        read_books: true,
        write_books: writable,
        write_formats: writable && !full_text_search,
        write_covers: writable,
        permanent_delete: writable && !full_text_search && !active_custom_columns,
        calibre_trash: writable && !full_text_search && !active_custom_columns,
        read_custom_columns: true,
        write_custom_columns: false,
        recovery_required,
    }
}

/// The capability report of a library opened in `mode`: writes need
/// read-write mode and no pending recovery; format writes also need inactive
/// full-text search; permanent deletion and trash also need no active custom
/// columns. Custom-column writes are never offered.
pub fn capabilities_for(
    mode: OpenMode,
    recovery_required: bool,
    full_text_search: bool,
    active_custom_columns: bool,
) -> (r: Capabilities)
    ensures
        r == capabilities_spec(mode, recovery_required, full_text_search, active_custom_columns),
{
    let writable = mode == OpenMode::ReadWrite && !recovery_required;
    Capabilities {
        read_books: true,
        write_books: writable,
        write_formats: writable && !full_text_search,
        write_covers: writable,
        permanent_delete: writable && !full_text_search && !active_custom_columns,
        calibre_trash: writable && !full_text_search && !active_custom_columns,
        read_custom_columns: true,
        write_custom_columns: false,
        recovery_required,
    }
}

/// What was observed of a library directory and its `metadata.db` before it
/// is accepted.
#[derive(Clone, Debug)]
pub struct LibraryInspection {
    /// The canonical library root.
    pub root: String,
    /// The root is a directory.
    pub root_is_dir: bool,
    /// `metadata.db` is a regular file.
    pub database_is_file: bool,
    /// `PRAGMA application_id`.
    pub application_id: u32,
    /// `PRAGMA user_version`.
    pub schema_version: u32,
    /// A required column that the database lacks, as `table.column`.
    pub missing_column: Option<String>,
    /// A custom column that is not marked for deletion exists.
    pub active_custom_columns: bool,
    /// `full-text-search.db` exists beside `metadata.db`.
    pub full_text_search: bool,
    /// Recovery journals are pending.
    pub recovery_pending: bool,
}

/// Which inspected libraries are accepted: a directory holding a regular
/// `metadata.db` with Calibre's application ID, schema version 27 and every
/// required column.
pub open spec fn accepted(inspection: LibraryInspection) -> bool {
    &&& inspection.root_is_dir
    &&& inspection.database_is_file
    &&& inspection.application_id == CALIBRE_APPLICATION_ID
    &&& inspection.schema_version == SUPPORTED_SCHEMA_VERSION
    &&& inspection.missing_column is None
}

/// A validated handle to an existing Calibre library.
#[derive(Debug)]
pub struct Library {
    root: String,
    database: String,
    mode: OpenMode,
    busy_timeout_ms: u64,
    compatibility: Compatibility,
    capabilities: Capabilities,
}

impl Clone for Library {
    fn clone(&self) -> (r: Self)
        ensures
            r == *self,
    {
        Library {
            root: self.root.clone(),
            database: self.database.clone(),
            mode: self.mode,
            busy_timeout_ms: self.busy_timeout_ms,
            compatibility: self.compatibility,
            capabilities: self.capabilities,
        }
    }
}

impl Library {
    /// The canonical library root.
    pub closed spec fn root_spec(&self) -> Seq<char> {
        self.root@
    }

    /// The path of `metadata.db`.
    pub closed spec fn database_spec(&self) -> Seq<char> {
        self.database@
    }

    /// The selected access mode.
    pub closed spec fn mode_spec(&self) -> OpenMode {
        self.mode
    }

    /// The busy timeout in milliseconds.
    pub closed spec fn busy_timeout_spec(&self) -> u64 {
        self.busy_timeout_ms
    }

    /// The detected schema compatibility.
    pub closed spec fn compatibility_spec(&self) -> Compatibility {
        self.compatibility
    }

    /// The capability report.
    pub closed spec fn capabilities_spec(&self) -> Capabilities {
        self.capabilities
    }

    /// Accepts an inspected library or says why it is refused.
    ///
    /// Returns [`Error::InvalidLibrary`] when the root is not a directory,
    /// `metadata.db` is not a regular file, the application ID is not
    /// Calibre's or a required column is missing, and
    /// [`Error::UnsupportedSchema`] for any schema version other than 27.
    pub fn from_inspection(inspection: LibraryInspection, options: OpenOptions) -> (r: Result<
        Library,
        Error,
    >)
        ensures
            r is Ok <==> accepted(inspection),
            r matches Ok(library) ==> {
                &&& library.root_spec() == inspection.root@
                &&& library.database_spec() == inspection.root@ + "/metadata.db"@
                &&& library.mode_spec() == options.mode
                &&& library.busy_timeout_spec() == options.busy_timeout_ms
                &&& library.compatibility_spec().schema_version == inspection.schema_version
                &&& library.compatibility_spec().application_id == inspection.application_id
                &&& library.compatibility_spec().supported_schema_versions == "27"
                &&& library.capabilities_spec() == capabilities_spec(
                    options.mode,
                    inspection.recovery_pending,
                    inspection.full_text_search,
                    inspection.active_custom_columns,
                )
            },
            r matches Err(e) ==> {
                &&& (e is UnsupportedSchema) <==> (inspection.root_is_dir
                    && inspection.database_is_file && inspection.application_id
                    == CALIBRE_APPLICATION_ID && inspection.schema_version
                    != SUPPORTED_SCHEMA_VERSION)
                &&& e is UnsupportedSchema ==> e->detected == inspection.schema_version
                &&& !(e is UnsupportedSchema) ==> e is InvalidLibrary
            },
    {
        let root = inspection.root;
        if !inspection.root_is_dir {
            return Err(invalid_library(root.as_str(), "library root is not a directory"));
        }
        if !inspection.database_is_file {
            return Err(invalid_library(root.as_str(), "metadata.db is not a regular file"));
        }
        if inspection.application_id != CALIBRE_APPLICATION_ID {
            return Err(
                invalid_library(root.as_str(), "unexpected SQLite application_id; expected Calibre"),
            );
        }
        if inspection.schema_version != SUPPORTED_SCHEMA_VERSION {
            return Err(
                Error::UnsupportedSchema {
                    operation: "open library",
                    detected: inspection.schema_version,
                    supported: "exactly version 27",
                },
            );
        }
        if let Some(column) = inspection.missing_column {
            let mut reason = crate::text::chars_of("required column is missing: ");
            crate::text::append_str(&mut reason, column.as_str());
            return Err(
                Error::InvalidLibrary {
                    path: crate::paths::join(root.as_str(), "metadata.db"),
                    reason: crate::text::string_of(&reason),
                },
            );
        }
        let database = crate::paths::join(root.as_str(), "metadata.db");
        proof {
            reveal_strlit("metadata.db");
            reveal_strlit("/metadata.db");
            assert(database@ =~= root@ + "/metadata.db"@);
        }
        Ok(
            Library {
                root,
                database,
                mode: options.mode,
                busy_timeout_ms: options.busy_timeout_ms,
                compatibility: Compatibility {
                    schema_version: inspection.schema_version,
                    application_id: inspection.application_id,
                    supported_schema_versions: "27",
                },
                capabilities: capabilities_for(
                    options.mode,
                    inspection.recovery_pending,
                    inspection.full_text_search,
                    inspection.active_custom_columns,
                ),
            },
        )
    }

    /// Returns the canonical library root.
    pub fn root(&self) -> (r: &str)
        ensures
            r@ == self.root_spec(),
    {
        self.root.as_str()
    }

    /// Returns the path of `metadata.db`.
    pub fn database(&self) -> (r: &str)
        ensures
            r@ == self.database_spec(),
    {
        self.database.as_str()
    }

    /// Returns the selected access mode.
    pub fn mode(&self) -> (r: OpenMode)
        ensures
            r == self.mode_spec(),
    {
        self.mode
    }

    /// Returns the busy timeout in milliseconds.
    pub fn busy_timeout_ms(&self) -> (r: u64)
        ensures
            r == self.busy_timeout_spec(),
    {
        self.busy_timeout_ms
    }

    /// Returns detected schema compatibility.
    pub fn compatibility(&self) -> (r: &Compatibility)
        ensures
            *r == self.compatibility_spec(),
    {
        &self.compatibility
    }

    /// Returns operation-level capabilities.
    pub fn capabilities(&self) -> (r: &Capabilities)
        ensures
            *r == self.capabilities_spec(),
    {
        &self.capabilities
    }

    /// Refuses a write unless the library was opened read-write with the
    /// supported schema.
    ///
    /// Returns [`Error::UnsupportedOperation`] in read-only mode and
    /// [`Error::UnsupportedSchema`] for another schema version.
    pub fn ensure_writable(&self, operation: &'static str) -> (r: Result<(), Error>)
        ensures
            r is Ok <==> (self.mode_spec() == OpenMode::ReadWrite
                && self.compatibility_spec().schema_version == SUPPORTED_SCHEMA_VERSION),
            self.mode_spec() != OpenMode::ReadWrite ==> (r matches Err(e)
                && e is UnsupportedOperation),
            self.mode_spec() == OpenMode::ReadWrite && self.compatibility_spec().schema_version
                != SUPPORTED_SCHEMA_VERSION ==> (r matches Err(e) && e is UnsupportedSchema),
    {
        if self.mode != OpenMode::ReadWrite {
            return Err(unsupported(operation, "library was opened read-only"));
        }
        if self.compatibility.schema_version != SUPPORTED_SCHEMA_VERSION {
            return Err(
                Error::UnsupportedSchema {
                    operation,
                    detected: self.compatibility.schema_version,
                    supported: "version 27",
                },
            );
        }
        Ok(())
    }

    /// Returns book operations.
    pub fn books(&self) -> (r: Books)
        ensures
            r.library_spec() == *self,
    {
        Books::new(self.clone())
    }

    /// Returns format operations.
    pub fn formats(&self) -> (r: Formats)
        ensures
            r.library_spec() == *self,
    {
        Formats::new(self.clone())
    }

    /// Returns cover operations.
    pub fn covers(&self) -> (r: Covers)
        ensures
            r.library_spec() == *self,
    {
        Covers::new(self.clone())
    }

    /// Returns Calibre trash operations.
    pub fn trash(&self) -> (r: Trash)
        ensures
            r.library_spec() == *self,
    {
        Trash::new(self.clone())
    }

    /// Returns read-only consistency checks.
    pub fn auditor(&self) -> (r: Auditor)
        ensures
            r.library_spec() == *self,
    {
        Auditor::new(self.clone())
    }

    /// Returns read-only custom-column operations.
    pub fn custom_columns(&self) -> (r: CustomColumns)
        ensures
            r.library_spec() == *self,
    {
        CustomColumns::new(self.clone())
    }
}

/// Refuses a write while recovery journals are pending.
///
/// Returns [`Error::UnsupportedOperation`] when `pending` is true.
pub fn ensure_clear(pending: bool, operation: &'static str) -> (r: Result<(), Error>)
    ensures
        r is Ok <==> !pending,
        r matches Err(e) ==> e is UnsupportedOperation,
{
    if pending {
        Err(
            unsupported(
                operation,
                "the library has pending recovery records; call Library::recover_pending and reopen it",
            ),
        )
    } else {
        Ok(())
    }
}

/// A library with pending recovery, or opened read-only, offers no write:
/// pending records block every write until recovery resolves them.
pub proof fn lemma_no_writes_without_read_write_and_clear_journals(
    mode: OpenMode,
    recovery_required: bool,
    full_text_search: bool,
    active_custom_columns: bool,
)
    requires
        mode == OpenMode::ReadOnly || recovery_required,
    ensures
        ({
            let c = capabilities_spec(mode, recovery_required, full_text_search, active_custom_columns);
            &&& !c.write_books
            &&& !c.write_formats
            &&& !c.write_covers
            &&& !c.permanent_delete
            &&& !c.calibre_trash
            &&& !c.write_custom_columns
            &&& c.read_books
        }),
{
}

} // verus!
