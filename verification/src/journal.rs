use crate::error::{invalid_library, path_escape, unsupported, Error};
use crate::paths::{components, drop_last_component, file_name, file_name_spec, format_file_name, format_file_name_spec, same_components};
use crate::text::{chars_eq, chars_of};
use crate::ids::BookId;
use crate::paths::{
    ascii_upper, format_name, parent_components, path_components, same_parent, same_path,
    valid_filename, valid_format, validate_filename,
};
use crate::recovery::{
    decode_path, decoded_path, decodes_to_relative, encode_path, encode_path_spec,
    lemma_path_encoding_round_trip, positive_book_id, RecoveryEntry, RecoveryOperation,
};
use crate::paths::{valid_relative, validate_relative};
use crate::books::{views, FormatRename};
use crate::trash::{
    format_trash_relative, format_trash_spec, prior_prefix, trash_entry_relative, trash_entry_spec,
    TrashEntryKind,
};
use vstd::prelude::*;

verus! {

/// The database row of one format, as a recovery journal records it.
#[derive(Clone, Debug)]
pub struct FormatRecoveryState {
    /// Logical format name.
    pub format: String,
    /// Recorded uncompressed size.
    pub size: i64,
    /// File-name stem.
    pub stem: String,
}

/// A format row in a journal; the size of the intended row is unknown until
/// the staged bytes are synced.
#[derive(Clone, Debug)]
pub struct FormatSnapshot {
    /// Logical format name.
    pub format: String,
    /// Recorded size, once known.
    pub size: Option<i64>,
    /// File-name stem.
    pub stem: String,
}

/// How far an asset write had come.
#[derive(Clone, Copy, Debug, PartialEq, Eq, Structural)]
pub enum AssetPhase {
    /// Bytes were being staged; the database was not touched.
    Staging,
    /// The staged bytes were synced; the database may have committed.
    Ready,
}

/// The database side of an asset change: the old and intended states.
#[derive(Clone, Debug)]
#[allow(inconsistent_fields)]
pub enum AssetDatabaseRecord {
    /// A format row, absent before an addition or after a removal.
    Format {
        /// Row before the change.
        before: Option<FormatSnapshot>,
        /// Row the change writes.
        after: Option<FormatSnapshot>,
    },
    /// The book's cover flag.
    Cover {
        /// Flag before the change.
        before: bool,
        /// Flag the change writes.
        after: bool,
    },
}

/// A journal record of a format or cover write or removal.
#[derive(Clone, Debug)]
pub struct AssetRecord {
    /// How far the write had come.
    pub phase: AssetPhase,
    /// Encoded path of the asset.
    pub destination: String,
    /// Encoded path the old asset is moved to.
    pub backup: String,
    /// Encoded path of the staged new asset, for a write.
    pub staged: Option<String>,
    /// Whether the asset existed before the change.
    pub before_file: bool,
    /// The database states on both sides of the change.
    pub database: AssetDatabaseRecord,
}

/// The database state of an asset, as recovery reads it.
#[derive(Clone, Debug)]
pub enum AssetDatabaseState {
    /// The format row, if any.
    Format(Option<FormatRecoveryState>),
    /// The cover flag.
    Cover(bool),
}

/// One format-file rename of a book move, both names encoded.
#[derive(Clone, Debug)]
pub struct FileRenameRecord {
    /// Encoded file name before the move.
    pub old_name: String,
    /// Encoded file name after the move.
    pub new_name: String,
}

/// A journal record of a book-directory move.
#[derive(Clone, Debug)]
pub struct BookMoveRecord {
    /// Encoded relative directory before the move.
    pub old_directory: String,
    /// Encoded relative directory after the move.
    pub new_directory: String,
    /// File-name stem the formats take.
    pub new_stem: String,
    /// The format files renamed inside the directory.
    pub files: Vec<FileRenameRecord>,
}

/// Which way an asset moves relative to the trash.
#[derive(Clone, Copy, Debug, PartialEq, Eq, Structural)]
pub enum TrashDirection {
    /// Into the trash.
    ToTrash,
    /// Out of the trash.
    FromTrash,
}

/// What moves relative to the trash.
#[derive(Clone, Debug)]
pub enum TrashAssetKind {
    /// A whole book directory.
    Book,
    /// One format file.
    Format {
        /// Normalized format name.
        format: String,
    },
}

/// The listing a format-trash entry shows.
#[derive(Clone, Debug)]
pub struct TrashListingRecord {
    /// Book title.
    pub title: String,
    /// Book authors in order.
    pub authors: Vec<String>,
}

/// A journal record of a move into or out of the trash.
#[derive(Clone, Debug)]
pub struct TrashRecord {
    /// Direction of the move.
    pub direction: TrashDirection,
    /// Moved asset.
    pub kind: TrashAssetKind,
    /// Encoded live path.
    pub live: String,
    /// Encoded trash path.
    pub trash: String,
    /// Encoded path of the trash entry the move replaced, if any.
    pub previous: Option<String>,
    /// Listing metadata for a format moved into the trash.
    pub listing: Option<TrashListingRecord>,
}

/// The operation a version-2 journal records.
#[derive(Clone, Debug)]
pub enum OperationV2 {
    /// A format or cover change.
    Asset(AssetRecord),
    /// A book-directory move.
    BookMove(BookMoveRecord),
    /// A move into or out of the trash.
    Trash(TrashRecord),
}

/// A version-2 recovery journal.
#[derive(Clone, Debug)]
pub struct JournalV2 {
    /// Journal format version.
    pub version: u8,
    /// Related book.
    pub book_id: i64,
    /// Recorded operation.
    pub operation: OperationV2,
}

/// The journal format version this crate writes and reads as JSON.
pub const V2_VERSION: u8 = 2;

// ---------------------------------------------------------------------------
// Database states
// ---------------------------------------------------------------------------
/// Two format rows agree.
pub open spec fn same_format_state(a: FormatRecoveryState, b: FormatRecoveryState) -> bool {
    a.format@ == b.format@ && a.size == b.size && a.stem@ == b.stem@
}

/// Two asset database states agree.
pub open spec fn same_database_state(a: AssetDatabaseState, b: AssetDatabaseState) -> bool {
    match (a, b) {
        (AssetDatabaseState::Format(None), AssetDatabaseState::Format(None)) => true,
        (AssetDatabaseState::Format(Some(x)), AssetDatabaseState::Format(Some(y))) => {
            same_format_state(x, y)
        },
        (AssetDatabaseState::Cover(x), AssetDatabaseState::Cover(y)) => x == y,
        _ => false,
    }
}

/// Whether two asset database states agree.
pub fn same_state(a: &AssetDatabaseState, b: &AssetDatabaseState) -> (r: bool)
    ensures
        r == same_database_state(*a, *b),
{
    match (a, b) {
        (AssetDatabaseState::Format(None), AssetDatabaseState::Format(None)) => true,
        (AssetDatabaseState::Format(Some(x)), AssetDatabaseState::Format(Some(y))) => {
            x.format == y.format && x.size == y.size && x.stem == y.stem
        },
        (AssetDatabaseState::Cover(x), AssetDatabaseState::Cover(y)) => *x == *y,
        _ => false,
    }
}

/// The complete row a snapshot records, once its size is known.
pub open spec fn completed(s: FormatSnapshot) -> Option<FormatRecoveryState> {
    match s.size {
        Some(size) => Some(FormatRecoveryState { format: s.format, size, stem: s.stem }),
        None => None,
    }
}

impl FormatSnapshot {
    /// The snapshot of a complete row.
    pub fn complete(state: FormatRecoveryState) -> (r: Self)
        ensures
            r.format@ == state.format@,
            r.size == Some(state.size),
            r.stem@ == state.stem@,
    {
        FormatSnapshot { format: state.format, size: Some(state.size), stem: state.stem }
    }

    /// The complete row of a snapshot whose size is known.
    ///
    /// Returns [`Error::InvalidLibrary`] (naming `journal`) when the size is
    /// not recorded.
    pub fn to_complete(&self, journal: &str) -> (r: Result<FormatRecoveryState, Error>)
        ensures
            r is Ok <==> self.size is Some,
            r matches Ok(state) ==> completed(*self) == Some(state),
            r matches Err(e) ==> e is InvalidLibrary,
    {
        match self.size {
            Some(size) => Ok(
                FormatRecoveryState { format: self.format.clone(), size, stem: self.stem.clone() },
            ),
            None => Err(invalid_library(journal, "ready format journal has no size")),
        }
    }
}

/// The database state a journal records on one side of its change; `None`
/// when that side is a format row whose size is not recorded.
pub open spec fn expected_state(db: AssetDatabaseRecord, after: bool) -> Option<
    AssetDatabaseState,
> {
    match db {
        AssetDatabaseRecord::Format { before, after: after_state } => {
            let side = if after {
                after_state
            } else {
                before
            };
            match side {
                None => Some(AssetDatabaseState::Format(None)),
                Some(snapshot) => match completed(snapshot) {
                    Some(state) => Some(AssetDatabaseState::Format(Some(state))),
                    None => None,
                },
            }
        },
        AssetDatabaseRecord::Cover { before, after: after_state } => Some(
            AssetDatabaseState::Cover(
                if after {
                    after_state
                } else {
                    before
                },
            ),
        ),
    }
}

/// The database state the journal records before (`after` false) or after
/// its change.
///
/// Returns [`Error::InvalidLibrary`] (naming `journal`) for a format row
/// without a recorded size.
pub fn expected_asset_database(asset: &AssetRecord, after: bool, journal: &str) -> (r: Result<
    AssetDatabaseState,
    Error,
>)
    ensures
        r is Ok <==> expected_state(asset.database, after) is Some,
        r matches Ok(state) ==> expected_state(asset.database, after) == Some(state),
        r matches Err(e) ==> e is InvalidLibrary,
{
    match &asset.database {
        AssetDatabaseRecord::Format { before, after: after_state } => {
            let side = if after {
                after_state
            } else {
                before
            };
            match side {
                None => Ok(AssetDatabaseState::Format(None)),
                Some(snapshot) => {
                    let state = snapshot.to_complete(journal)?;
                    Ok(AssetDatabaseState::Format(Some(state)))
                },
            }
        },
        AssetDatabaseRecord::Cover { before, after: after_state } => Ok(
            AssetDatabaseState::Cover(
                if after {
                    *after_state
                } else {
                    *before
                },
            ),
        ),
    }
}

/// Whether recovery of an asset change succeeds with the database in
/// `current`: it must match a side the journal records.
pub open spec fn asset_direction_ok(asset: AssetRecord, current: AssetDatabaseState) -> bool {
    match expected_state(asset.database, false) {
        None => false,
        Some(before) => if asset.phase == AssetPhase::Staging {
            same_database_state(current, before)
        } else {
            match expected_state(asset.database, true) {
                None => false,
                Some(after) => same_database_state(current, after) || same_database_state(
                    current,
                    before,
                ),
            }
        },
    }
}

/// Whether a recoverable asset change rolls forward: only a ready record
/// whose intended state the database shows.
pub open spec fn asset_rolls_forward(asset: AssetRecord, current: AssetDatabaseState) -> bool {
    asset.phase == AssetPhase::Ready && match expected_state(asset.database, true) {
        Some(after) => same_database_state(current, after),
        None => false,
    }
}

/// Decides which way to recover an interrupted asset change, the database
/// being the commit decision: a staging record rolls back when the
/// database still shows the old state; a ready record rolls forward when
/// the database shows the intended state and back when it shows the old
/// one.
///
/// Returns `true` to roll forward. Returns [`Error::UnsupportedOperation`]
/// when the database matches neither recorded side, and
/// [`Error::InvalidLibrary`] when a needed side lacks its size.
pub fn asset_recovery_direction(
    asset: &AssetRecord,
    current: &AssetDatabaseState,
    journal: &str,
) -> (r: Result<bool, Error>)
    ensures
        r is Ok <==> asset_direction_ok(*asset, *current),
        r matches Ok(forward) ==> forward == asset_rolls_forward(*asset, *current),
        r matches Err(e) ==> if expected_state(asset.database, false) is None || (asset.phase
            == AssetPhase::Ready && expected_state(asset.database, true) is None) {
            e is InvalidLibrary
        } else {
            e is UnsupportedOperation
        },
{
    let before = expected_asset_database(asset, false, journal)?;
    if asset.phase == AssetPhase::Staging {
        if !same_state(current, &before) {
            return Err(
                unsupported(
                    "recover staged asset",
                    "database state does not match either side of the recovery journal",
                ),
            );
        }
        return Ok(false);
    }
    let after = expected_asset_database(asset, true, journal)?;
    if same_state(current, &after) {
        Ok(true)
    } else if same_state(current, &before) {
        Ok(same_state(&before, &after))
    } else {
        Err(
            unsupported(
                "recover asset change",
                "database state does not match either side of the recovery journal",
            ),
        )
    }
}

/// Whether the asset exists once the change is complete.
pub open spec fn after_file_spec(db: AssetDatabaseRecord) -> bool {
    match db {
        AssetDatabaseRecord::Format { after, .. } => after is Some,
        AssetDatabaseRecord::Cover { after, .. } => after,
    }
}

/// Whether the asset exists once the change is complete.
pub fn asset_after_file(asset: &AssetRecord) -> (r: bool)
    ensures
        r == after_file_spec(asset.database),
{
    match &asset.database {
        AssetDatabaseRecord::Format { after, .. } => after.is_some(),
        AssetDatabaseRecord::Cover { after, .. } => *after,
    }
}

/// The format row a format record is about: its old row, else its new one.
pub open spec fn format_side(db: AssetDatabaseRecord) -> Option<FormatSnapshot> {
    match db {
        AssetDatabaseRecord::Format { before, after } => if before is Some {
            before
        } else {
            after
        },
        AssetDatabaseRecord::Cover { .. } => None,
    }
}

fn format_snapshot(asset: &AssetRecord) -> (r: Option<&FormatSnapshot>)
    ensures
        r matches Some(s) ==> format_side(asset.database) == Some(*s),
        r is None ==> format_side(asset.database) is None,
{
    match &asset.database {
        AssetDatabaseRecord::Format { before, after } => match before {
            Some(b) => Some(b),
            None => match after {
                Some(a) => Some(a),
                None => None,
            },
        },
        AssetDatabaseRecord::Cover { .. } => None,
    }
}

/// The format name a format record is about.
///
/// Returns [`Error::InvalidLibrary`] (naming `database`) for a cover record
/// or a format record with neither row.
pub fn format_name_from_asset(asset: &AssetRecord, database: &str) -> (r: Result<String, Error>)
    ensures
        r is Ok <==> format_side(asset.database) is Some,
        r matches Ok(name) ==> (format_side(asset.database) matches Some(s) && name@ == s.format@),
        r matches Err(e) ==> e is InvalidLibrary,
{
    match format_snapshot(asset) {
        Some(s) => Ok(s.format.clone()),
        None => Err(invalid_library(database, "format journal has no format name")),
    }
}

/// The file name an asset record's asset has: `<stem>.<format>` of the row
/// it is about, or `cover.jpg` for a cover.
pub open spec fn expected_asset_name(db: AssetDatabaseRecord) -> Option<Seq<char>> {
    match db {
        AssetDatabaseRecord::Format { .. } => match format_side(db) {
            Some(s) => Some(format_file_name_spec(s.stem@, s.format@)),
            None => None,
        },
        AssetDatabaseRecord::Cover { .. } => Some("cover.jpg"@),
    }
}

/// Where an asset record may point: directly inside the book's directory,
/// under the file name its database side gives the asset.
pub open spec fn asset_location_ok(asset: AssetRecord, book_relative: Seq<char>) -> bool {
    let destination = decoded_path(asset.destination@);
    &&& decodes_to_relative(asset.destination@)
    &&& path_components(destination).len() > 0
    &&& parent_components(path_components(destination)) == path_components(book_relative)
    &&& expected_asset_name(asset.database) is Some
    &&& file_name_spec(destination) == expected_asset_name(asset.database)
}

/// Checks that an asset record points into the directory `book_relative`
/// of its book, at the file name of its format row or at `cover.jpg`.
///
/// Returns [`Error::PathEscape`] for an asset outside the book's directory
/// (or a path that is not relative), and [`Error::InvalidLibrary`] (naming
/// `database`) for an undecodable path, a format record with neither row,
/// or a file name that does not match.
pub fn check_asset_location(asset: &AssetRecord, book_relative: &str, database: &str) -> (r: Result<
    (),
    Error,
>)
    ensures
        r is Ok <==> asset_location_ok(*asset, book_relative@),
        r matches Err(e) ==> e is InvalidLibrary || e is PathEscape,
{
    let destination = decode_path(asset.destination.as_str(), database)?;
    let mut parent = components(destination.as_str());
    if parent.len() == 0 {
        return Err(invalid_library(database, "recovery asset path is empty"));
    }
    drop_last_component(&mut parent);
    let book = components(book_relative);
    if !same_components(&parent, &book) {
        return Err(path_escape(destination.as_str(), "recovery asset is outside its book directory"));
    }
    let expected = match &asset.database {
        AssetDatabaseRecord::Cover { .. } => {
            proof {
                reveal_strlit("cover.jpg");
            }
            chars_of("cover.jpg")
        },
        AssetDatabaseRecord::Format { .. } => match format_snapshot(asset) {
            Some(s) => chars_of(format_file_name(s.stem.as_str(), s.format.as_str()).as_str()),
            None => {
                return Err(invalid_library(database, "format journal has neither before nor after state"));
            },
        },
    };
    match file_name(destination.as_str()) {
        Some(name) => {
            if chars_eq(&name, &expected) {
                Ok(())
            } else {
                Err(invalid_library(database, "recovery asset filename does not match its database state"))
            }
        },
        None => Err(invalid_library(database, "recovery asset has no file name")),
    }
}

// ---------------------------------------------------------------------------
// Record validation
// ---------------------------------------------------------------------------
/// Two paths are distinct entries of one directory.
pub open spec fn siblings(a: Seq<char>, b: Seq<char>) -> bool {
    path_components(a) != path_components(b) && parent_components(path_components(a))
        == parent_components(path_components(b))
}

/// What [`validate_asset_record`] accepts: decodable paths; backup and
/// staged paths distinct siblings of the asset and of each other; a ready
/// format write with its size recorded.
pub open spec fn asset_record_valid(asset: AssetRecord) -> bool {
    let destination = decoded_path(asset.destination@);
    let backup = decoded_path(asset.backup@);
    &&& decodes_to_relative(asset.destination@)
    &&& decodes_to_relative(asset.backup@)
    &&& siblings(backup, destination)
    &&& (asset.staged matches Some(staged) ==> decodes_to_relative(staged@) && siblings(
        decoded_path(staged@),
        destination,
    ) && path_components(decoded_path(staged@)) != path_components(backup))
    &&& (asset.phase == AssetPhase::Ready ==> (asset.database matches AssetDatabaseRecord::Format {
        after: Some(after),
        ..
    } ==> after.size is Some))
}

fn distinct_siblings(destination: &str, auxiliary: &str, journal: &str) -> (r: Result<(), Error>)
    ensures
        r is Ok <==> siblings(auxiliary@, destination@),
        r matches Err(e) ==> e is InvalidLibrary,
{
    if same_path(auxiliary, destination) || !same_parent(auxiliary, destination) {
        Err(invalid_library(journal, "recovery asset paths are not distinct siblings"))
    } else {
        Ok(())
    }
}

/// Checks the paths of an asset record: each decodes to a relative path,
/// the backup and staged paths are distinct siblings of the asset and of
/// each other, and a ready format write records its size.
///
/// Returns [`Error::InvalidLibrary`] (naming `journal`) or
/// [`Error::PathEscape`] otherwise.
pub fn validate_asset_record(asset: &AssetRecord, journal: &str) -> (r: Result<(), Error>)
    ensures
        r is Ok <==> asset_record_valid(*asset),
        r matches Err(e) ==> e is InvalidLibrary || e is PathEscape,
{
    let destination = decode_path(asset.destination.as_str(), journal)?;
    let backup = decode_path(asset.backup.as_str(), journal)?;
    distinct_siblings(destination.as_str(), backup.as_str(), journal)?;
    match &asset.staged {
        Some(staged) => {
            let staged = decode_path(staged.as_str(), journal)?;
            distinct_siblings(destination.as_str(), staged.as_str(), journal)?;
            if same_path(staged.as_str(), backup.as_str()) {
                return Err(
                    invalid_library(journal, "recovery staging and backup paths are identical"),
                );
            }
        },
        None => {},
    }
    if asset.phase == AssetPhase::Ready {
        match &asset.database {
            AssetDatabaseRecord::Format { after: Some(after), .. } => {
                after.to_complete(journal)?;
            },
            _ => {},
        }
    }
    Ok(())
}

/// What [`validate_book_move_record`] accepts: both directories decode to
/// relative paths and every rename names single-component files.
pub open spec fn book_move_valid(record: BookMoveRecord) -> bool {
    &&& decodes_to_relative(record.old_directory@)
    &&& decodes_to_relative(record.new_directory@)
    &&& forall|i: int|
        0 <= i < record.files@.len() ==> rename_valid(#[trigger] record.files@[i])
}

/// A rename record names two single-component files.
pub open spec fn rename_valid(rename: FileRenameRecord) -> bool {
    &&& decodes_to_relative(rename.old_name@)
    &&& decodes_to_relative(rename.new_name@)
    &&& valid_filename(decoded_path(rename.old_name@))
    &&& valid_filename(decoded_path(rename.new_name@))
}

/// Decodes both names of a rename record and checks that each is one file
/// name.
pub fn decode_rename(rename: &FileRenameRecord, journal: &str) -> (r: Result<(String, String), Error>)
    ensures
        r is Ok <==> rename_valid(*rename),
        r matches Ok(names) ==> names.0@ == decoded_path(rename.old_name@) && names.1@
            == decoded_path(rename.new_name@),
        r matches Err(e) ==> e is InvalidLibrary || e is PathEscape,
{
    let old = decode_path(rename.old_name.as_str(), journal)?;
    let new = decode_path(rename.new_name.as_str(), journal)?;
    validate_filename(old.as_str())?;
    validate_filename(new.as_str())?;
    Ok((old, new))
}

/// Checks a book-move record: both directories decode to relative paths and
/// every rename names single-component files.
///
/// Returns [`Error::InvalidLibrary`] (naming `journal`) or
/// [`Error::PathEscape`] otherwise.
pub fn validate_book_move_record(record: &BookMoveRecord, journal: &str) -> (r: Result<(), Error>)
    ensures
        r is Ok <==> book_move_valid(*record),
        r matches Err(e) ==> e is InvalidLibrary || e is PathEscape,
{
    decode_path(record.old_directory.as_str(), journal)?;
    decode_path(record.new_directory.as_str(), journal)?;
    let mut i: usize = 0;
    while i < record.files.len()
        invariant
            i <= record.files@.len(),
            decodes_to_relative(record.old_directory@),
            decodes_to_relative(record.new_directory@),
            forall|j: int| 0 <= j < i ==> rename_valid(#[trigger] record.files@[j]),
        decreases record.files@.len() - i,
    {
        decode_rename(&record.files[i], journal)?;
        i = i + 1;
    }
    Ok(())
}

/// The trash path a trash record must name for its book and asset.
pub open spec fn expected_trash_path(kind: TrashAssetKind, book: int) -> Seq<char> {
    match kind {
        TrashAssetKind::Book => trash_entry_spec(TrashEntryKind::Book, book),
        TrashAssetKind::Format { format } => format_trash_spec(book, format@),
    }
}

/// What [`validate_trash_record`] accepts.
pub open spec fn trash_record_valid(record: TrashRecord, book: int) -> bool {
    let live = decoded_path(record.live@);
    let trash = decoded_path(record.trash@);
    &&& decodes_to_relative(record.live@)
    &&& decodes_to_relative(record.trash@)
    &&& path_components(live) != path_components(trash)
    &&& book > 0
    &&& (record.kind matches TrashAssetKind::Format { format } ==> valid_format(format@)
        && format@.map_values(|c: char| ascii_upper(c)) == format@)
    &&& path_components(trash) == path_components(expected_trash_path(record.kind, book))
    &&& (record.previous matches Some(p) ==> decodes_to_relative(p@) && previous_valid(
        decoded_path(p@),
        live,
        trash,
    ))
    &&& (record.kind is Format && record.direction == TrashDirection::ToTrash
        ==> record.listing is Some)
}

/// A recorded previous trash entry is a private sibling of the trash path.
pub open spec fn previous_valid(previous: Seq<char>, live: Seq<char>, trash: Seq<char>) -> bool {
    &&& path_components(previous) != path_components(live)
    &&& path_components(previous) != path_components(trash)
    &&& parent_components(path_components(previous)) == parent_components(path_components(trash))
    &&& path_components(previous).len() > 0
    &&& prior_prefix().is_prefix_of(path_components(previous).last())
}

fn has_prior_name(path: &str) -> (r: bool)
    ensures
        r == (path_components(path@).len() > 0 && prior_prefix().is_prefix_of(
            path_components(path@).last(),
        )),
{
    let c = crate::paths::components(path);
    if c.len() == 0 {
        return false;
    }
    let name = &c[c.len() - 1];
    let prefix = crate::text::chars_of(".calibre-rs-prior-");
    proof {
        reveal_strlit(".calibre-rs-prior-");
    }
    assert(crate::paths::component_views(c@).last() == name@);
    assert(path_components(path@).len() > 0);
    if name.len() < prefix.len() {
        return false;
    }
    let mut i: usize = 0;
    while i < prefix.len()
        invariant
            prefix@ == prior_prefix(),
            path_components(path@).len() > 0,
            name@ == path_components(path@).last(),
            prefix.len() <= name.len(),
            i <= prefix.len(),
            forall|j: int| 0 <= j < i ==> name@[j] == prefix@[j],
        decreases prefix.len() - i,
    {
        if name[i] != prefix[i] {
            assert(name@.subrange(0, prefix@.len() as int)[i as int] != prefix@[i as int]);
            return false;
        }
        i = i + 1;
    }
    assert(prefix@ =~= name@.take(prefix@.len() as int));
    true
}

/// Checks a trash record against its book: decodable, distinct live and
/// trash paths; a normalized format; the trash path of that book and
/// asset; a previous entry that is a private sibling of the trash path;
/// listing metadata for a format moved into the trash.
///
/// Returns [`Error::InvalidLibrary`] (naming `journal`),
/// [`Error::PathEscape`] or, for a malformed format or book ID,
/// [`Error::InvalidInput`] otherwise.
pub fn validate_trash_record(record: &TrashRecord, book: BookId, journal: &str) -> (r: Result<
    (),
    Error,
>)
    ensures
        r is Ok <==> trash_record_valid(*record, book@ as int),
        r matches Err(e) ==> e is InvalidLibrary || e is PathEscape || e is InvalidInput,
{
    let live = decode_path(record.live.as_str(), journal)?;
    let trash = decode_path(record.trash.as_str(), journal)?;
    if same_path(live.as_str(), trash.as_str()) {
        return Err(invalid_library(journal, "trash recovery live and trash paths are identical"));
    }
    let expected = match &record.kind {
        TrashAssetKind::Book => trash_entry_relative(TrashEntryKind::Book, book)?,
        TrashAssetKind::Format { format } => {
            let normalized = format_name(format.as_str())?;
            if !(normalized == *format) {
                return Err(invalid_library(journal, "trash recovery format is not normalized"));
            }
            format_trash_relative(book, format.as_str())?
        },
    };
    if !same_path(trash.as_str(), expected.as_str()) {
        return Err(
            invalid_library(
                journal,
                "trash recovery destination does not match its book and asset",
            ),
        );
    }
    match &record.previous {
        Some(p) => {
            let previous = decode_path(p.as_str(), journal)?;
            if same_path(previous.as_str(), live.as_str()) || same_path(
                previous.as_str(),
                trash.as_str(),
            ) || !same_parent(previous.as_str(), trash.as_str()) || !has_prior_name(
                previous.as_str(),
            ) {
                return Err(
                    invalid_library(
                        journal,
                        "trash recovery previous path is not a private trash sibling",
                    ),
                );
            }
        },
        None => {},
    }
    let is_format = match &record.kind {
        TrashAssetKind::Format { .. } => true,
        TrashAssetKind::Book => false,
    };
    if is_format && record.direction == TrashDirection::ToTrash && record.listing.is_none() {
        return Err(
            invalid_library(journal, "format trash recovery record has no listing metadata"),
        );
    }
    Ok(())
}

/// What a version-2 journal must hold to be recovered.
pub open spec fn journal_v2_valid(journal: JournalV2) -> bool {
    &&& journal.version == V2_VERSION
    &&& journal.book_id > 0
    &&& match journal.operation {
        OperationV2::Asset(asset) => asset_record_valid(asset),
        OperationV2::BookMove(record) => book_move_valid(record),
        OperationV2::Trash(record) => trash_record_valid(record, journal.book_id as int),
    }
}

/// The operation a version-2 journal reports.
pub open spec fn v2_operation(op: OperationV2) -> RecoveryOperation {
    match op {
        OperationV2::Asset(asset) => match asset.database {
            AssetDatabaseRecord::Format { .. } => RecoveryOperation::FormatChange,
            AssetDatabaseRecord::Cover { .. } => RecoveryOperation::CoverChange,
        },
        OperationV2::BookMove(_) => RecoveryOperation::BookMove,
        OperationV2::Trash(_) => RecoveryOperation::TrashChange,
    }
}

/// The encoded primary path of a version-2 operation: the asset, the old
/// book directory, or the live path.
pub open spec fn v2_primary(op: OperationV2) -> Seq<char> {
    match op {
        OperationV2::Asset(asset) => asset.destination@,
        OperationV2::BookMove(record) => record.old_directory@,
        OperationV2::Trash(record) => record.live@,
    }
}

/// The pending-recovery entry of a decoded version-2 journal, after checking
/// its version, book ID and record.
///
/// Returns [`Error::InvalidLibrary`] (naming `journal_path`) for another
/// version or a book ID that is not positive, and the record's own errors.
pub fn journal_v2_entry(journal: &JournalV2, journal_id: &str, journal_path: &str) -> (r: Result<
    RecoveryEntry,
    Error,
>)
    ensures
        r is Ok <==> journal_v2_valid(*journal),
        r matches Ok(entry) ==> entry.journal_id@ == journal_id@ && entry.book_id@
            == journal.book_id && entry.operation == v2_operation(journal.operation)
            && entry.relative_path@ == decoded_path(v2_primary(journal.operation)),
        r matches Err(e) ==> e is InvalidLibrary || e is PathEscape || e is InvalidInput,
{
    if journal.version != V2_VERSION {
        return Err(invalid_library(journal_path, "unsupported recovery journal version"));
    }
    let book = positive_book_id(journal.book_id, journal_path)?;
    let (operation, relative_path) = match &journal.operation {
        OperationV2::Asset(asset) => {
            validate_asset_record(asset, journal_path)?;
            let operation = match &asset.database {
                AssetDatabaseRecord::Format { .. } => RecoveryOperation::FormatChange,
                AssetDatabaseRecord::Cover { .. } => RecoveryOperation::CoverChange,
            };
            (operation, decode_path(asset.destination.as_str(), journal_path)?)
        },
        OperationV2::BookMove(record) => {
            validate_book_move_record(record, journal_path)?;
            (
                RecoveryOperation::BookMove,
                decode_path(record.old_directory.as_str(), journal_path)?,
            )
        },
        OperationV2::Trash(record) => {
            validate_trash_record(record, book, journal_path)?;
            (RecoveryOperation::TrashChange, decode_path(record.live.as_str(), journal_path)?)
        },
    };
    Ok(
        RecoveryEntry {
            journal_id: journal_id.to_owned(),
            operation,
            book_id: book,
            relative_path,
        },
    )
}

// ---------------------------------------------------------------------------
// Writing records
// ---------------------------------------------------------------------------
/// Encodes a relative path for a journal after checking it.
///
/// Returns [`Error::PathEscape`] for a path that is not relative.
pub fn encode_relative(path: &str) -> (r: Result<String, Error>)
    ensures
        r is Ok <==> valid_relative(path@),
        r matches Ok(e) ==> e@ == encode_path_spec(path@),
        r matches Err(e) ==> e is PathEscape,
{
    validate_relative(path)?;
    Ok(encode_path(path))
}

/// A format snapshot records `state` exactly (with its size).
pub open spec fn snapshot_of(s: FormatSnapshot, state: FormatRecoveryState) -> bool {
    s.format@ == state.format@ && s.size == Some(state.size) && s.stem@ == state.stem@
}

/// The staging-phase record of a format write: the old row (if any) and
/// the intended row without its size, the three paths encoded.
///
/// Returns [`Error::PathEscape`] for a path that is not relative.
pub fn format_write_record(
    destination: &str,
    backup: &str,
    staged: &str,
    before_file: bool,
    before: Option<FormatRecoveryState>,
    format: &str,
    stem: &str,
) -> (r: Result<AssetRecord, Error>)
    ensures
        r is Ok <==> valid_relative(destination@) && valid_relative(backup@) && valid_relative(
            staged@,
        ),
        r matches Ok(a) ==> {
            &&& a.phase == AssetPhase::Staging
            &&& a.destination@ == encode_path_spec(destination@)
            &&& a.backup@ == encode_path_spec(backup@)
            &&& a.staged matches Some(s) && s@ == encode_path_spec(staged@)
            &&& a.before_file == before_file
            &&& a.database matches AssetDatabaseRecord::Format { before: b, after: Some(after) }
                && (b is Some <==> before is Some) && (b matches Some(x) ==> snapshot_of(
                x,
                before.unwrap(),
            )) && after.format@ == format@ && after.size is None && after.stem@ == stem@
        },
        r matches Err(e) ==> e is PathEscape,
{
    let destination = encode_relative(destination)?;
    let backup = encode_relative(backup)?;
    let staged = encode_relative(staged)?;
    let before = match before {
        Some(state) => Some(FormatSnapshot::complete(state)),
        None => None,
    };
    Ok(
        AssetRecord {
            phase: AssetPhase::Staging,
            destination,
            backup,
            staged: Some(staged),
            before_file,
            database: AssetDatabaseRecord::Format {
                before,
                after: Some(
                    FormatSnapshot { format: format.to_owned(), size: None, stem: stem.to_owned() },
                ),
            },
        },
    )
}

/// The ready-phase record of a format removal: the old row and no new one.
///
/// Returns [`Error::PathEscape`] for a path that is not relative.
pub fn format_removal_record(
    destination: &str,
    backup: &str,
    before_file: bool,
    before: FormatRecoveryState,
) -> (r: Result<AssetRecord, Error>)
    ensures
        r is Ok <==> valid_relative(destination@) && valid_relative(backup@),
        r matches Ok(a) ==> {
            &&& a.phase == AssetPhase::Ready
            &&& a.destination@ == encode_path_spec(destination@)
            &&& a.backup@ == encode_path_spec(backup@)
            &&& a.staged is None
            &&& a.before_file == before_file
            &&& a.database matches AssetDatabaseRecord::Format { before: Some(b), after: None }
                && snapshot_of(b, before)
        },
        r matches Err(e) ==> e is PathEscape,
{
    let destination = encode_relative(destination)?;
    let backup = encode_relative(backup)?;
    let ghost state = before;
    Ok(
        AssetRecord {
            phase: AssetPhase::Ready,
            destination,
            backup,
            staged: None,
            before_file,
            database: AssetDatabaseRecord::Format {
                before: Some(FormatSnapshot::complete(before)),
                after: None,
            },
        },
    )
}

/// The staging-phase record of a cover write, which sets the cover flag.
///
/// Returns [`Error::PathEscape`] for a path that is not relative.
pub fn cover_write_record(
    destination: &str,
    backup: &str,
    staged: &str,
    before_file: bool,
    before: bool,
) -> (r: Result<AssetRecord, Error>)
    ensures
        r is Ok <==> valid_relative(destination@) && valid_relative(backup@) && valid_relative(
            staged@,
        ),
        r matches Ok(a) ==> {
            &&& a.phase == AssetPhase::Staging
            &&& a.destination@ == encode_path_spec(destination@)
            &&& a.backup@ == encode_path_spec(backup@)
            &&& a.staged matches Some(s) && s@ == encode_path_spec(staged@)
            &&& a.before_file == before_file
            &&& a.database == AssetDatabaseRecord::Cover { before, after: true }
        },
        r matches Err(e) ==> e is PathEscape,
{
    let destination = encode_relative(destination)?;
    let backup = encode_relative(backup)?;
    let staged = encode_relative(staged)?;
    Ok(
        AssetRecord {
            phase: AssetPhase::Staging,
            destination,
            backup,
            staged: Some(staged),
            before_file,
            database: AssetDatabaseRecord::Cover { before, after: true },
        },
    )
}

/// The ready-phase record of a cover removal, which clears the flag.
///
/// Returns [`Error::PathEscape`] for a path that is not relative.
pub fn cover_removal_record(destination: &str, backup: &str, before_file: bool) -> (r: Result<
    AssetRecord,
    Error,
>)
    ensures
        r is Ok <==> valid_relative(destination@) && valid_relative(backup@),
        r matches Ok(a) ==> {
            &&& a.phase == AssetPhase::Ready
            &&& a.destination@ == encode_path_spec(destination@)
            &&& a.backup@ == encode_path_spec(backup@)
            &&& a.staged is None
            &&& a.before_file == before_file
            &&& a.database == AssetDatabaseRecord::Cover { before: true, after: false }
        },
        r matches Err(e) ==> e is PathEscape,
{
    let destination = encode_relative(destination)?;
    let backup = encode_relative(backup)?;
    Ok(
        AssetRecord {
            phase: AssetPhase::Ready,
            destination,
            backup,
            staged: None,
            before_file,
            database: AssetDatabaseRecord::Cover { before: true, after: false },
        },
    )
}

/// Marks a format write ready once its staged bytes are synced: records
/// the size of the intended row and moves to the ready phase.
///
/// Returns [`Error::UnsupportedOperation`] (and changes nothing) when the
/// record is not a format write.
pub fn mark_format_ready(record: &mut AssetRecord, size: i64) -> (r: Result<(), Error>)
    ensures
        r is Ok <==> old(record).database matches AssetDatabaseRecord::Format {
            after: Some(_),
            ..
        },
        r is Ok ==> {
            &&& final(record).phase == AssetPhase::Ready
            &&& final(record).destination == old(record).destination
            &&& final(record).backup == old(record).backup
            &&& final(record).staged == old(record).staged
            &&& final(record).before_file == old(record).before_file
            &&& old(record).database matches AssetDatabaseRecord::Format { before: b0, after: Some(a0) }
            &&& final(record).database matches AssetDatabaseRecord::Format { before: b1, after: Some(a1) }
            &&& b1 == b0 && a1.format == a0.format && a1.stem == a0.stem && a1.size == Some(size)
        },
        r is Err ==> *final(record) == *old(record),
        r matches Err(e) ==> e is UnsupportedOperation,
{
    match &mut record.database {
        AssetDatabaseRecord::Format { after: Some(after), .. } => {
            after.size = Some(size);
        },
        _ => {
            return Err(
                unsupported(
                    "mark format journal ready",
                    "recovery journal is in an unexpected internal state",
                ),
            )
        },
    }
    record.phase = AssetPhase::Ready;
    Ok(())
}

/// Marks a cover write ready once its staged bytes are synced.
///
/// Returns [`Error::UnsupportedOperation`] (and changes nothing) when the
/// record is not a cover record.
pub fn mark_cover_ready(record: &mut AssetRecord) -> (r: Result<(), Error>)
    ensures
        r is Ok <==> old(record).database is Cover,
        r is Ok ==> final(record).phase == AssetPhase::Ready,
        r is Ok ==> final(record).destination == old(record).destination,
        r is Ok ==> final(record).backup == old(record).backup,
        r is Ok ==> final(record).staged == old(record).staged,
        r is Ok ==> final(record).before_file == old(record).before_file,
        r is Ok ==> final(record).database == old(record).database,
        r is Err ==> *final(record) == *old(record),
        r matches Err(e) ==> e is UnsupportedOperation,
{
    let is_cover = match &record.database {
        AssetDatabaseRecord::Cover { .. } => true,
        _ => false,
    };
    if !is_cover {
        return Err(
            unsupported(
                "mark cover journal ready",
                "recovery journal is in an unexpected internal state",
            ),
        );
    }
    record.phase = AssetPhase::Ready;
    Ok(())
}

/// The record of a book-directory move, with each format rename.
///
/// Returns [`Error::PathEscape`] for a directory that is not relative or a
/// file name that is not one component.
pub fn book_move_record(
    old_directory: &str,
    new_directory: &str,
    new_stem: &str,
    files: &Vec<FormatRename>,
) -> (r: Result<BookMoveRecord, Error>)
    ensures
        r is Ok <==> valid_relative(old_directory@) && valid_relative(new_directory@) && forall|
            i: int,
        |
            0 <= i < files@.len() ==> valid_filename(#[trigger] files@[i].from@) && valid_filename(
                files@[i].to@,
            ),
        r matches Ok(m) ==> {
            &&& m.old_directory@ == encode_path_spec(old_directory@)
            &&& m.new_directory@ == encode_path_spec(new_directory@)
            &&& m.new_stem@ == new_stem@
            &&& m.files@.len() == files@.len()
            &&& forall|i: int|
                0 <= i < files@.len() ==> #[trigger] m.files@[i].old_name@ == encode_path_spec(
                    files@[i].from@,
                ) && m.files@[i].new_name@ == encode_path_spec(files@[i].to@)
        },
        r matches Err(e) ==> e is PathEscape,
{
    let mut records: Vec<FileRenameRecord> = Vec::new();
    let mut i: usize = 0;
    while i < files.len()
        invariant
            i <= files@.len(),
            records@.len() == i,
            forall|j: int| 0 <= j < i ==> valid_filename(#[trigger] files@[j].from@),
            forall|j: int| 0 <= j < i ==> valid_filename(#[trigger] files@[j].to@),
            forall|j: int|
                0 <= j < i ==> #[trigger] records@[j].old_name@ == encode_path_spec(files@[j].from@)
                    && records@[j].new_name@ == encode_path_spec(files@[j].to@),
        decreases files@.len() - i,
    {
        validate_filename(files[i].from.as_str())?;
        validate_filename(files[i].to.as_str())?;
        assert(valid_filename(files@[i as int].from@) && valid_filename(files@[i as int].to@));
        records.push(
            FileRenameRecord {
                old_name: encode_path(files[i].from.as_str()),
                new_name: encode_path(files[i].to.as_str()),
            },
        );
        i = i + 1;
    }
    let old_directory = encode_relative(old_directory)?;
    let new_directory = encode_relative(new_directory)?;
    Ok(BookMoveRecord { old_directory, new_directory, new_stem: new_stem.to_owned(), files: records })
}

/// The record of a move into or out of the trash.
///
/// Returns [`Error::PathEscape`] for a path that is not relative.
pub fn trash_change_record(
    live: &str,
    trash: &str,
    previous: Option<&str>,
    direction: TrashDirection,
    kind: TrashAssetKind,
    listing: Option<TrashListingRecord>,
) -> (r: Result<TrashRecord, Error>)
    ensures
        r is Ok <==> valid_relative(live@) && valid_relative(trash@) && (previous matches Some(p)
            ==> valid_relative(p@)),
        r matches Ok(t) ==> {
            &&& t.live@ == encode_path_spec(live@)
            &&& t.trash@ == encode_path_spec(trash@)
            &&& (t.previous is Some <==> previous is Some)
            &&& (t.previous matches Some(p) ==> p@ == encode_path_spec(previous.unwrap()@))
            &&& t.direction == direction
            &&& t.kind == kind
            &&& t.listing == listing
        },
        r matches Err(e) ==> e is PathEscape,
{
    let live = encode_relative(live)?;
    let trash = encode_relative(trash)?;
    let previous = match previous {
        Some(p) => Some(encode_relative(p)?),
        None => None,
    };
    Ok(TrashRecord { direction, kind, live, trash, previous, listing })
}

/// An encoded relative path decodes to itself.
proof fn lemma_encoded_decodes(p: Seq<char>)
    requires
        valid_relative(p),
    ensures
        decodes_to_relative(encode_path_spec(p)),
        decoded_path(encode_path_spec(p)) == p,
{
    lemma_path_encoding_round_trip(p);
}

/// An asset record written for a change whose backup and staged paths are
/// distinct siblings of the asset (and of each other) is one that recovery
/// accepts once it is ready, or while a write is still staging.
pub proof fn lemma_written_asset_record_valid(
    a: AssetRecord,
    destination: Seq<char>,
    backup: Seq<char>,
    staged: Option<Seq<char>>,
)
    requires
        valid_relative(destination),
        valid_relative(backup),
        a.destination@ == encode_path_spec(destination),
        a.backup@ == encode_path_spec(backup),
        siblings(backup, destination),
        a.staged is Some <==> staged is Some,
        staged matches Some(s) ==> valid_relative(s) && siblings(s, destination)
            && path_components(s) != path_components(backup),
        a.staged matches Some(s) ==> s@ == encode_path_spec(staged.unwrap()),
        a.phase == AssetPhase::Ready ==> (a.database matches AssetDatabaseRecord::Format {
            after: Some(x),
            ..
        } ==> x.size is Some),
    ensures
        asset_record_valid(a),
{
    lemma_encoded_decodes(destination);
    lemma_encoded_decodes(backup);
    if let Some(s) = staged {
        lemma_encoded_decodes(s);
    }
}

/// A trash record written for an asset's live path and its trash path (and
/// a private previous sibling) is one that recovery accepts.
pub proof fn lemma_written_trash_record_valid(
    t: TrashRecord,
    book: int,
    live: Seq<char>,
    trash: Seq<char>,
    previous: Option<Seq<char>>,
)
    requires
        book > 0,
        valid_relative(live),
        valid_relative(trash),
        t.live@ == encode_path_spec(live),
        t.trash@ == encode_path_spec(trash),
        path_components(live) != path_components(trash),
        t.kind matches TrashAssetKind::Format { format } ==> valid_format(format@)
            && format@.map_values(|c: char| ascii_upper(c)) == format@,
        path_components(trash) == path_components(expected_trash_path(t.kind, book)),
        t.previous is Some <==> previous is Some,
        previous matches Some(p) ==> valid_relative(p) && previous_valid(p, live, trash),
        t.previous matches Some(p) ==> p@ == encode_path_spec(previous.unwrap()),
        t.kind is Format && t.direction == TrashDirection::ToTrash ==> t.listing is Some,
    ensures
        trash_record_valid(t, book),
{
    lemma_encoded_decodes(live);
    lemma_encoded_decodes(trash);
    if let Some(p) = previous {
        lemma_encoded_decodes(p);
    }
}

/// A record still staging its bytes always rolls back: the database cannot
/// have committed a write whose bytes were not ready.
pub proof fn lemma_staging_rolls_back(asset: AssetRecord, current: AssetDatabaseState)
    requires
        asset.phase == AssetPhase::Staging,
    ensures
        !asset_rolls_forward(asset, current),
{
}

proof fn lemma_same_state_transitive(a: AssetDatabaseState, b: AssetDatabaseState, c: AssetDatabaseState)
    requires
        same_database_state(a, b),
        same_database_state(b, c),
    ensures
        same_database_state(a, c),
{
}

/// A ready record whose old and intended database states are the same
/// (such as a cover replaced while one existed) rolls forward whenever the
/// database shows that state.
pub proof fn lemma_unchanged_state_rolls_forward(asset: AssetRecord, current: AssetDatabaseState)
    requires
        asset.phase == AssetPhase::Ready,
        expected_state(asset.database, false) matches Some(before) && expected_state(
            asset.database,
            true,
        ) matches Some(after) && same_database_state(before, after) && same_database_state(
            current,
            before,
        ),
    ensures
        asset_direction_ok(asset, current),
        asset_rolls_forward(asset, current),
{
    let before = expected_state(asset.database, false).unwrap();
    let after = expected_state(asset.database, true).unwrap();
    lemma_same_state_transitive(current, before, after);
}

/// A ready record rolls forward exactly when the database shows the
/// intended state, and back exactly when it shows only the old one.
pub proof fn lemma_ready_direction(asset: AssetRecord, current: AssetDatabaseState)
    requires
        asset.phase == AssetPhase::Ready,
        asset_direction_ok(asset, current),
    ensures
        asset_rolls_forward(asset, current) <==> same_database_state(
            current,
            expected_state(asset.database, true).unwrap(),
        ),
        !asset_rolls_forward(asset, current) ==> same_database_state(
            current,
            expected_state(asset.database, false).unwrap(),
        ),
{
}

} // verus!
