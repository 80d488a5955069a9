use crate::error::{unsupported, Error};
use crate::journal::BookMoveRecord;
use crate::paths::{path_components, same_path};
use crate::recovery::{decode_path, decoded_path, decodes_to_relative};
use vstd::prelude::*;

verus! {

/// What a path holds, as recovery observes it before acting.
///
/// A file or directory carries a label that tells its contents apart from
/// those of other paths, so that plans can state where contents end up.
#[derive(Clone, Copy, Debug, PartialEq, Eq, Structural)]
pub enum Slot {
    /// Nothing exists at the path.
    Missing,
    /// A regular file.
    File(u64),
    /// A regular directory.
    Directory(u64),
    /// A symlink or another special entry.
    Other,
}

/// One filesystem step of a recovery plan, over the numbered paths the plan
/// is about.
#[derive(Clone, Copy, Debug, PartialEq, Eq, Structural)]
pub enum FileStep {
    /// Rename the entry at `from` to `to`.
    Rename { from: usize, to: usize },
    /// Remove the entry at the path.
    Remove(usize),
}

/// Asset recovery: the asset's own path.
pub const DESTINATION: usize = 0;

/// Asset recovery: the backup of the asset that was replaced.
pub const BACKUP: usize = 1;

/// Asset recovery: the staged replacement.
pub const STAGED: usize = 2;

/// Trash recovery: the asset's live path.
pub const LIVE: usize = 0;

/// Trash recovery: the asset's trash path.
pub const TRASH: usize = 1;

/// Trash recovery: the private sibling holding the trash entry it replaced.
pub const PREVIOUS: usize = 2;

/// Whether something exists at a path.
pub open spec fn present(s: Slot) -> bool {
    s != Slot::Missing
}

/// Whether a path holds a regular file.
pub open spec fn is_file(s: Slot) -> bool {
    s is File
}

/// Whether a path holds a regular directory.
pub open spec fn is_directory(s: Slot) -> bool {
    s is Directory
}

/// The paths after one step.
pub open spec fn apply_step(s: Seq<Slot>, step: FileStep) -> Seq<Slot> {
    match step {
        FileStep::Rename { from, to } => s.update(to as int, s[from as int]).update(
            from as int,
            Slot::Missing,
        ),
        FileStep::Remove(at) => s.update(at as int, Slot::Missing),
    }
}

/// Whether a step can run on the paths: it names paths that exist, removes
/// only what is there, and renames an existing entry onto a free path.
pub open spec fn step_allowed(s: Seq<Slot>, step: FileStep) -> bool {
    match step {
        FileStep::Rename { from, to } => from < s.len() && to < s.len() && from != to && present(
            s[from as int],
        ) && !present(s[to as int]),
        FileStep::Remove(at) => at < s.len() && present(s[at as int]),
    }
}

/// The paths after the steps, in order.
pub open spec fn apply_steps(s: Seq<Slot>, steps: Seq<FileStep>) -> Seq<Slot>
    decreases steps.len(),
{
    if steps.len() == 0 {
        s
    } else {
        apply_step(apply_steps(s, steps.drop_last()), steps.last())
    }
}

/// Whether every step can run when the steps run in order.
pub open spec fn steps_allowed(s: Seq<Slot>, steps: Seq<FileStep>) -> bool
    decreases steps.len(),
{
    if steps.len() == 0 {
        true
    } else {
        steps_allowed(s, steps.drop_last()) && step_allowed(
            apply_steps(s, steps.drop_last()),
            steps.last(),
        )
    }
}

proof fn lemma_push_step(s: Seq<Slot>, steps: Seq<FileStep>, step: FileStep)
    ensures
        apply_steps(s, steps.push(step)) == apply_step(apply_steps(s, steps), step),
        steps_allowed(s, steps.push(step)) == (steps_allowed(s, steps) && step_allowed(
            apply_steps(s, steps),
            step,
        )),
{
    assert(steps.push(step).drop_last() =~= steps);
}

/// Appends a step to a plan whose effect so far is known.
fn push_step(steps: &mut Vec<FileStep>, step: FileStep, Ghost(s): Ghost<Seq<Slot>>)
    ensures
        final(steps)@ == old(steps)@.push(step),
        apply_steps(s, final(steps)@) == apply_step(apply_steps(s, old(steps)@), step),
        steps_allowed(s, final(steps)@) == (steps_allowed(s, old(steps)@) && step_allowed(
            apply_steps(s, old(steps)@),
            step,
        )),
{
    proof {
        lemma_push_step(s, steps@, step);
    }
    steps.push(step);
}

fn occupied(s: Slot) -> (r: bool)
    ensures
        r == present(s),
{
    match s {
        Slot::Missing => false,
        _ => true,
    }
}

fn file(s: Slot) -> (r: bool)
    ensures
        r == is_file(s),
{
    match s {
        Slot::File(_) => true,
        _ => false,
    }
}

// ---------------------------------------------------------------------------
// Asset files
// ---------------------------------------------------------------------------
/// The three asset paths, the staged one absent as `Missing`.
pub open spec fn asset_paths(destination: Slot, backup: Slot, staged: Slot) -> Seq<Slot> {
    seq![destination, backup, staged]
}

/// Whether a path may be removed as a leftover file: it is missing or a
/// regular file.
pub open spec fn removable_file(s: Slot) -> bool {
    !present(s) || is_file(s)
}

/// Whether rolling an asset change forward succeeds on the observed paths.
pub open spec fn forward_ok(
    destination: Slot,
    backup: Slot,
    staged: Slot,
    before_file: bool,
    after_file: bool,
) -> bool {
    if after_file {
        if present(staged) {
            &&& is_file(staged)
            &&& ((present(destination) && !present(backup) && before_file && is_file(destination))
                || (!present(destination) && present(backup) && before_file && is_file(backup)) || (
            !present(destination) && !present(backup) && !before_file))
        } else {
            is_file(destination) && removable_file(backup)
        }
    } else {
        removable_file(staged) && removable_file(destination) && removable_file(backup)
    }
}

/// The paths after rolling an asset change forward: the new asset (staged,
/// or already installed) in place when there is one, nothing else left.
pub open spec fn forward_result(
    destination: Slot,
    backup: Slot,
    staged: Slot,
    after_file: bool,
) -> Seq<Slot> {
    let installed = if after_file {
        if present(staged) {
            staged
        } else {
            destination
        }
    } else {
        Slot::Missing
    };
    seq![installed, Slot::Missing, Slot::Missing]
}

/// Whether rolling an asset change back succeeds on the observed paths.
pub open spec fn back_ok(destination: Slot, backup: Slot, staged: Slot, before_file: bool) -> bool {
    &&& removable_file(staged)
    &&& if present(backup) {
        is_file(backup) && removable_file(destination)
    } else if before_file {
        is_file(destination)
    } else {
        removable_file(destination)
    }
}

/// The paths after rolling an asset change back: the old asset (from the
/// backup, or never moved) in place when there was one.
pub open spec fn back_result(destination: Slot, backup: Slot, before_file: bool) -> Seq<Slot> {
    let restored = if present(backup) {
        backup
    } else if before_file {
        destination
    } else {
        Slot::Missing
    };
    seq![restored, Slot::Missing, Slot::Missing]
}

fn ambiguous() -> (e: Error)
    ensures
        e is UnsupportedOperation,
{
    unsupported("recover asset", "filesystem state is ambiguous between recovery paths")
}

fn not_file() -> (e: Error)
    ensures
        e is UnsupportedOperation,
{
    unsupported("recover asset", "expected a regular file")
}

/// Removes `at` when it holds a leftover file.
fn remove_if_present(
    steps: &mut Vec<FileStep>,
    at: usize,
    slot: Slot,
    Ghost(s): Ghost<Seq<Slot>>,
) -> (r: Result<(), Error>)
    requires
        at < 3,
        apply_steps(s, old(steps)@).len() == 3,
        apply_steps(s, old(steps)@)[at as int] == slot,
    ensures
        r is Ok <==> removable_file(slot),
        r is Ok ==> apply_steps(s, final(steps)@) == apply_steps(s, old(steps)@).update(
            at as int,
            Slot::Missing,
        ),
        steps_allowed(s, final(steps)@) == steps_allowed(s, old(steps)@),
        r is Err ==> final(steps)@ == old(steps)@,
        r matches Err(e) ==> e is UnsupportedOperation,
{
    if occupied(slot) {
        if !file(slot) {
            return Err(not_file());
        }
        push_step(steps, FileStep::Remove(at), Ghost(s));
    } else {
        assert(apply_steps(s, old(steps)@).update(at as int, Slot::Missing) =~= apply_steps(
            s,
            old(steps)@,
        ));
    }
    Ok(())
}

fn forward_steps(
    steps: &mut Vec<FileStep>,
    destination: Slot,
    backup: Slot,
    staged: Slot,
    before_file: bool,
    after_file: bool,
) -> (r: Result<(), Error>)
    requires
        old(steps)@ == Seq::<FileStep>::empty(),
    ensures
        r is Ok <==> forward_ok(destination, backup, staged, before_file, after_file),
        steps_allowed(asset_paths(destination, backup, staged), final(steps)@),
        r is Ok ==> apply_steps(asset_paths(destination, backup, staged), final(steps)@)
            == forward_result(destination, backup, staged, after_file),
        r matches Err(e) ==> e is UnsupportedOperation,
{
    let ghost s0 = asset_paths(destination, backup, staged);
    assert(apply_steps(s0, steps@) == s0);
    if after_file {
        if occupied(staged) {
            if !file(staged) {
                return Err(not_file());
            }
            let moved_aside = occupied(destination) && !occupied(backup) && before_file;
            if moved_aside {
                if !file(destination) {
                    return Err(not_file());
                }
                push_step(steps, FileStep::Rename { from: DESTINATION, to: BACKUP }, Ghost(s0));
            } else if !occupied(destination) && occupied(backup) && before_file {
            } else if !occupied(destination) && !occupied(backup) && !before_file {
            } else {
                return Err(ambiguous());
            }
            push_step(steps, FileStep::Rename { from: STAGED, to: DESTINATION }, Ghost(s0));
            let b = if moved_aside {
                destination
            } else {
                backup
            };
            remove_if_present(steps, BACKUP, b, Ghost(s0))?;
        } else {
            if !file(destination) {
                return Err(unsupported("recover asset", "the recovered asset is missing"));
            }
            remove_if_present(steps, BACKUP, backup, Ghost(s0))?;
        }
    } else {
        remove_if_present(steps, STAGED, staged, Ghost(s0))?;
        remove_if_present(steps, DESTINATION, destination, Ghost(s0))?;
        remove_if_present(steps, BACKUP, backup, Ghost(s0))?;
    }
    assert(apply_steps(s0, steps@) =~= forward_result(destination, backup, staged, after_file));
    Ok(())
}

/// Plans rolling an interrupted asset change forward: install the staged
/// file (moving an old file aside first), or remove the asset when the
/// change removes it; then drop every leftover.
///
/// Returns the steps to run in order and whether recovery then succeeds;
/// on failure the steps are those that run before the failing check.
pub fn plan_asset_forward(
    destination: Slot,
    backup: Slot,
    staged: Slot,
    before_file: bool,
    after_file: bool,
) -> (r: (Vec<FileStep>, Result<(), Error>))
    ensures
        r.1 is Ok <==> forward_ok(destination, backup, staged, before_file, after_file),
        steps_allowed(asset_paths(destination, backup, staged), r.0@),
        r.1 is Ok ==> apply_steps(asset_paths(destination, backup, staged), r.0@)
            == forward_result(destination, backup, staged, after_file),
        r.1 matches Err(e) ==> e is UnsupportedOperation,
{
    let mut steps: Vec<FileStep> = Vec::new();
    let result = forward_steps(&mut steps, destination, backup, staged, before_file, after_file);
    (steps, result)
}

fn back_steps(
    steps: &mut Vec<FileStep>,
    destination: Slot,
    backup: Slot,
    staged: Slot,
    before_file: bool,
) -> (r: Result<(), Error>)
    requires
        old(steps)@ == Seq::<FileStep>::empty(),
    ensures
        r is Ok <==> back_ok(destination, backup, staged, before_file),
        steps_allowed(asset_paths(destination, backup, staged), final(steps)@),
        r is Ok ==> apply_steps(asset_paths(destination, backup, staged), final(steps)@)
            == back_result(destination, backup, before_file),
        r matches Err(e) ==> e is UnsupportedOperation,
{
    let ghost s0 = asset_paths(destination, backup, staged);
    assert(apply_steps(s0, steps@) == s0);
    remove_if_present(steps, STAGED, staged, Ghost(s0))?;
    if occupied(backup) {
        if !file(backup) {
            return Err(not_file());
        }
        remove_if_present(steps, DESTINATION, destination, Ghost(s0))?;
        push_step(steps, FileStep::Rename { from: BACKUP, to: DESTINATION }, Ghost(s0));
    } else if before_file {
        if !file(destination) {
            return Err(unsupported("recover asset", "the original asset is missing"));
        }
    } else {
        remove_if_present(steps, DESTINATION, destination, Ghost(s0))?;
    }
    assert(apply_steps(s0, steps@) =~= back_result(destination, backup, before_file));
    Ok(())
}

/// Plans rolling an interrupted asset change back: drop the staged file and
/// put the backed-up asset back in place.
///
/// Returns the steps to run in order and whether recovery then succeeds;
/// on failure the steps are those that run before the failing check.
pub fn plan_asset_back(destination: Slot, backup: Slot, staged: Slot, before_file: bool) -> (r: (
    Vec<FileStep>,
    Result<(), Error>,
))
    ensures
        r.1 is Ok <==> back_ok(destination, backup, staged, before_file),
        steps_allowed(asset_paths(destination, backup, staged), r.0@),
        r.1 is Ok ==> apply_steps(asset_paths(destination, backup, staged), r.0@) == back_result(
            destination,
            backup,
            before_file,
        ),
        r.1 matches Err(e) ==> e is UnsupportedOperation,
{
    let mut steps: Vec<FileStep> = Vec::new();
    let result = back_steps(&mut steps, destination, backup, staged, before_file);
    (steps, result)
}

// ---------------------------------------------------------------------------
// Trash entries
// ---------------------------------------------------------------------------
/// Whether a path holds the kind of asset a trash change moves: a directory
/// for a whole book, a regular file for a format.
pub open spec fn fits(s: Slot, book: bool) -> bool {
    if book {
        is_directory(s)
    } else {
        is_file(s)
    }
}

/// The three trash-change paths, an unrecorded previous entry as `Missing`.
pub open spec fn trash_paths(live: Slot, trash: Slot, previous: Slot) -> Seq<Slot> {
    seq![live, trash, previous]
}

/// Whether reconciling a trash change succeeds on the observed paths.
///
/// `database_present` says whether the database still lists the asset (so
/// it must end live); `from_trash` whether the change was a restoration.
pub open spec fn trash_ok(
    live: Slot,
    trash: Slot,
    previous: Slot,
    book: bool,
    database_present: bool,
    from_trash: bool,
) -> bool {
    if database_present {
        &&& !(from_trash && present(live) && present(trash))
        &&& if present(live) {
            fits(live, book)
        } else {
            present(trash) && fits(trash, book)
        }
        &&& present(previous) ==> !(present(live) && present(trash)) && fits(previous, book)
    } else {
        &&& !(present(live) && present(trash))
        &&& if present(trash) {
            fits(trash, book)
        } else {
            present(live) && fits(live, book)
        }
        &&& present(previous) ==> fits(previous, book)
    }
}

/// The paths after reconciling a trash change: the asset live when the
/// database lists it, in the trash otherwise; a superseded trash entry is
/// put back when the asset went live and dropped when it went to the trash.
pub open spec fn trash_result(
    live: Slot,
    trash: Slot,
    previous: Slot,
    database_present: bool,
) -> Seq<Slot> {
    if database_present {
        seq![
            if present(live) {
                live
            } else {
                trash
            },
            if present(previous) {
                previous
            } else if present(live) {
                trash
            } else {
                Slot::Missing
            },
            Slot::Missing,
        ]
    } else {
        seq![
            Slot::Missing,
            if present(trash) {
                trash
            } else {
                live
            },
            Slot::Missing,
        ]
    }
}

fn fits_kind(s: Slot, book: bool) -> (r: bool)
    ensures
        r == fits(s, book),
{
    match s {
        Slot::File(_) => !book,
        Slot::Directory(_) => book,
        _ => false,
    }
}

fn wrong_kind() -> (e: Error)
    ensures
        e matches Error::InvalidLibrary { path, reason } && path@ == "recovery"@ && reason@
            == "recovery trash asset has an unexpected file type"@,
{
    crate::error::invalid_library("recovery", "recovery trash asset has an unexpected file type")
}

fn trash_steps(
    steps: &mut Vec<FileStep>,
    live: Slot,
    trash: Slot,
    previous: Slot,
    book: bool,
    database_present: bool,
    from_trash: bool,
) -> (r: Result<(), Error>)
    requires
        old(steps)@ == Seq::<FileStep>::empty(),
    ensures
        r is Ok <==> trash_ok(live, trash, previous, book, database_present, from_trash),
        steps_allowed(trash_paths(live, trash, previous), final(steps)@),
        r is Ok ==> apply_steps(trash_paths(live, trash, previous), final(steps)@)
            == trash_result(live, trash, previous, database_present),
        r matches Err(e) ==> e is UnsupportedOperation || e is InvalidLibrary,
{
    let ghost s0 = trash_paths(live, trash, previous);
    assert(apply_steps(s0, steps@) == s0);
    if database_present {
        if from_trash && occupied(live) && occupied(trash) {
            return Err(unsupported("recover trash restoration", "filesystem state is ambiguous"));
        }
        if occupied(live) {
            if !fits_kind(live, book) {
                return Err(wrong_kind());
            }
        } else {
            if !occupied(trash) {
                return Err(
                    unsupported(
                        "recover trash change",
                        "database state requires a live asset, but no recoverable copy exists",
                    ),
                );
            }
            if !fits_kind(trash, book) {
                return Err(wrong_kind());
            }
            push_step(steps, FileStep::Rename { from: TRASH, to: LIVE }, Ghost(s0));
        }
        if occupied(previous) {
            if occupied(live) && occupied(trash) {
                return Err(
                    unsupported("restore previous trash entry", "filesystem state is ambiguous"),
                );
            }
            if !fits_kind(previous, book) {
                return Err(wrong_kind());
            }
            push_step(steps, FileStep::Rename { from: PREVIOUS, to: TRASH }, Ghost(s0));
        }
    } else {
        if occupied(live) && occupied(trash) {
            return Err(unsupported("finish trash change", "filesystem state is ambiguous"));
        }
        if occupied(trash) {
            if !fits_kind(trash, book) {
                return Err(wrong_kind());
            }
        } else {
            if !occupied(live) {
                return Err(
                    unsupported(
                        "recover trash change",
                        "database state requires a trash asset, but no recoverable copy exists",
                    ),
                );
            }
            if !fits_kind(live, book) {
                return Err(wrong_kind());
            }
            push_step(steps, FileStep::Rename { from: LIVE, to: TRASH }, Ghost(s0));
        }
        if occupied(previous) {
            if !fits_kind(previous, book) {
                return Err(wrong_kind());
            }
            push_step(steps, FileStep::Remove(PREVIOUS), Ghost(s0));
        }
    }
    assert(apply_steps(s0, steps@) =~= trash_result(live, trash, previous, database_present));
    Ok(())
}

/// Plans finishing or undoing an interrupted move into or out of the trash,
/// as the database decides: the asset ends live when the database lists it
/// and in the trash otherwise.
///
/// `book` says whether the asset is a whole-book directory (else a format
/// file). Returns the steps to run in order and whether recovery then
/// succeeds; on failure the steps are those that run before the failing
/// check.
pub fn plan_trash_reconcile(
    live: Slot,
    trash: Slot,
    previous: Slot,
    book: bool,
    database_present: bool,
    from_trash: bool,
) -> (r: (Vec<FileStep>, Result<(), Error>))
    ensures
        r.1 is Ok <==> trash_ok(live, trash, previous, book, database_present, from_trash),
        steps_allowed(trash_paths(live, trash, previous), r.0@),
        r.1 is Ok ==> apply_steps(trash_paths(live, trash, previous), r.0@) == trash_result(
            live,
            trash,
            previous,
            database_present,
        ),
        r.1 matches Err(e) ==> e is UnsupportedOperation || e is InvalidLibrary,
{
    let mut steps: Vec<FileStep> = Vec::new();
    let result = trash_steps(
        &mut steps,
        live,
        trash,
        previous,
        book,
        database_present,
        from_trash,
    );
    (steps, result)
}

// ---------------------------------------------------------------------------
// Book additions and removals
// ---------------------------------------------------------------------------
/// Book add and removal recovery: the book's directory.
pub const BOOK_DIRECTORY: usize = 0;

/// Book removal recovery: the staged copy of the removed directory.
pub const STAGED_DIRECTORY: usize = 1;

/// Whether recovering an interrupted book addition succeeds: a listed book
/// needs its directory; an orphan must be a directory to be removed.
pub open spec fn add_ok(book_exists: bool, directory: Slot) -> bool {
    if book_exists {
        is_directory(directory)
    } else {
        !present(directory) || is_directory(directory)
    }
}

/// Plans recovering an interrupted book addition, the book row deciding:
/// a listed book keeps its directory, and the directory of a book that
/// never got its row is an orphan and goes.
pub fn plan_add_recovery(book_exists: bool, directory: Slot) -> (r: (
    Vec<FileStep>,
    Result<(), Error>,
))
    ensures
        r.1 is Ok <==> add_ok(book_exists, directory),
        steps_allowed(seq![directory], r.0@),
        r.1 is Ok ==> apply_steps(seq![directory], r.0@) == seq![
            if book_exists {
                directory
            } else {
                Slot::Missing
            },
        ],
        r.1 matches Err(e) ==> e is UnsupportedOperation,
{
    let ghost s0 = seq![directory];
    let mut steps: Vec<FileStep> = Vec::new();
    assert(apply_steps(s0, steps@) == s0);
    if book_exists {
        match directory {
            Slot::Directory(_) => {},
            _ => {
                return (
                    steps,
                    Err(
                        unsupported(
                            "recover interrupted book add",
                            "the book exists but its directory is missing",
                        ),
                    ),
                );
            },
        }
    } else if occupied(directory) {
        match directory {
            Slot::Directory(_) => {},
            _ => {
                return (
                    steps,
                    Err(unsupported("recover interrupted book add", "expected a directory")),
                );
            },
        }
        push_step(&mut steps, FileStep::Remove(BOOK_DIRECTORY), Ghost(s0));
    }
    assert(apply_steps(s0, steps@) =~= seq![
        if book_exists {
            directory
        } else {
            Slot::Missing
        },
    ]);
    (steps, Ok(()))
}

/// Whether recovering an interrupted permanent removal succeeds.
pub open spec fn removal_ok(book_exists: bool, original: Slot, staged: Slot) -> bool {
    if book_exists {
        if present(staged) {
            is_directory(staged) && !present(original)
        } else {
            is_directory(original)
        }
    } else if present(staged) {
        is_directory(staged)
    } else {
        !present(original) || is_directory(original)
    }
}

/// The paths after recovering an interrupted removal: a listed book is
/// live at its directory; otherwise the staged copy (or, when none was
/// staged, the directory itself) is gone.
pub open spec fn removal_result(book_exists: bool, original: Slot, staged: Slot) -> Seq<Slot> {
    if book_exists {
        seq![
            if present(staged) {
                staged
            } else {
                original
            },
            Slot::Missing,
        ]
    } else if present(staged) {
        seq![original, Slot::Missing]
    } else {
        seq![Slot::Missing, Slot::Missing]
    }
}

/// Plans recovering an interrupted permanent removal, the book row
/// deciding: a listed book gets its staged directory back; otherwise the
/// deletion finishes.
pub fn plan_removal_recovery(book_exists: bool, original: Slot, staged: Slot) -> (r: (
    Vec<FileStep>,
    Result<(), Error>,
))
    ensures
        r.1 is Ok <==> removal_ok(book_exists, original, staged),
        steps_allowed(seq![original, staged], r.0@),
        r.1 is Ok ==> apply_steps(seq![original, staged], r.0@) == removal_result(
            book_exists,
            original,
            staged,
        ),
        r.1 matches Err(e) ==> e is UnsupportedOperation,
{
    let ghost s0 = seq![original, staged];
    let mut steps: Vec<FileStep> = Vec::new();
    assert(apply_steps(s0, steps@) == s0);
    let staged_dir = match staged {
        Slot::Directory(_) => true,
        _ => false,
    };
    let original_dir = match original {
        Slot::Directory(_) => true,
        _ => false,
    };
    if book_exists {
        if occupied(staged) {
            if !staged_dir {
                return (steps, Err(unsupported("recover interrupted book removal", "expected a directory")));
            }
            if occupied(original) {
                return (
                    steps,
                    Err(
                        unsupported(
                            "recover interrupted book removal",
                            "filesystem state is ambiguous between recovery paths",
                        ),
                    ),
                );
            }
            push_step(
                &mut steps,
                FileStep::Rename { from: STAGED_DIRECTORY, to: BOOK_DIRECTORY },
                Ghost(s0),
            );
        } else if !original_dir {
            return (
                steps,
                Err(
                    unsupported(
                        "recover interrupted book removal",
                        "the book exists but neither original nor staged directory is present",
                    ),
                ),
            );
        }
    } else if occupied(staged) {
        if !staged_dir {
            return (steps, Err(unsupported("recover interrupted book removal", "expected a directory")));
        }
        push_step(&mut steps, FileStep::Remove(STAGED_DIRECTORY), Ghost(s0));
    } else if occupied(original) {
        if !original_dir {
            return (steps, Err(unsupported("recover interrupted book removal", "expected a directory")));
        }
        push_step(&mut steps, FileStep::Remove(BOOK_DIRECTORY), Ghost(s0));
    }
    assert(apply_steps(s0, steps@) =~= removal_result(book_exists, original, staged));
    (steps, Ok(()))
}

// ---------------------------------------------------------------------------
// Book moves
// ---------------------------------------------------------------------------
/// Whether a book-move record can be recovered with `current` as the
/// book's stored path: it must be one of the two recorded directories.
pub open spec fn move_direction_ok(record: BookMoveRecord, current: Seq<char>) -> bool {
    &&& decodes_to_relative(record.old_directory@)
    &&& decodes_to_relative(record.new_directory@)
    &&& (path_components(current) == path_components(decoded_path(record.new_directory@))
        || path_components(current) == path_components(decoded_path(record.old_directory@)))
}

/// Decides which way to recover an interrupted book move: forward when the
/// database already stores the new directory, back when it stores the old.
///
/// Returns [`Error::UnsupportedOperation`] when it stores neither, and the
/// decoding errors of the record's paths.
pub fn book_move_direction(record: &BookMoveRecord, current: &str, journal: &str) -> (r: Result<
    bool,
    Error,
>)
    ensures
        r is Ok <==> move_direction_ok(*record, current@),
        r matches Ok(forward) ==> forward == (path_components(current@) == path_components(
            decoded_path(record.new_directory@),
        )),
        r matches Err(e) ==> e is UnsupportedOperation || e is InvalidLibrary || e is PathEscape,
{
    let old = decode_path(record.old_directory.as_str(), journal)?;
    let new = decode_path(record.new_directory.as_str(), journal)?;
    if same_path(current, new.as_str()) {
        Ok(true)
    } else if same_path(current, old.as_str()) {
        Ok(false)
    } else {
        Err(
            unsupported(
                "recover book move",
                "database state does not match either side of the recovery journal",
            ),
        )
    }
}

/// How to move a book's directory while recovering a move.
#[derive(Clone, Copy, Debug, PartialEq, Eq, Structural)]
pub struct DirectoryPlan {
    /// Rename the old directory to the new one before the file renames.
    pub rename_before: bool,
    /// Run the file renames inside the new directory (else the old one).
    pub files_in_new: bool,
    /// Rename the new directory back to the old one after the file renames.
    pub rename_after: bool,
}

/// Whether the directories of an interrupted move can be reconciled: exactly
/// one exists, and a directory that is moved is a directory.
pub open spec fn directory_plan_ok(old: Slot, new: Slot, forward: bool) -> bool {
    &&& present(old) != present(new)
    &&& (forward && present(old) ==> is_directory(old))
    &&& (!forward && present(new) ==> is_directory(new))
}

/// Plans the directory side of recovering a book move: forward, the book
/// ends in the new directory with its files renamed; back, the files are
/// renamed back and the book ends in the old directory.
pub fn plan_move_directories(old: Slot, new: Slot, forward: bool) -> (r: Result<
    DirectoryPlan,
    Error,
>)
    ensures
        r is Ok <==> directory_plan_ok(old, new, forward),
        r matches Ok(p) ==> p.rename_before == (forward && present(old)) && p.rename_after == (
        !forward && present(new)) && p.files_in_new == (forward || present(new)),
        r matches Err(e) ==> e is UnsupportedOperation,
{
    let old_exists = occupied(old);
    let new_exists = occupied(new);
    if old_exists && new_exists {
        return Err(unsupported("recover book move", "both the old and new book directories exist"));
    }
    if !old_exists && !new_exists {
        return Err(unsupported("recover book move", "neither the old nor new book directory exists"));
    }
    let is_dir = |s: Slot| -> (b: bool)
        ensures
            b == is_directory(s),
        {
            match s {
                Slot::Directory(_) => true,
                _ => false,
            }
        };
    if forward {
        if old_exists && !is_dir(old) {
            return Err(unsupported("recover book move", "expected a directory"));
        }
        Ok(DirectoryPlan { rename_before: old_exists, files_in_new: true, rename_after: false })
    } else {
        if new_exists && !is_dir(new) {
            return Err(unsupported("recover book move", "expected a directory"));
        }
        Ok(DirectoryPlan { rename_before: false, files_in_new: new_exists, rename_after: new_exists })
    }
}

/// Whether one format rename of a book move can be reconciled: exactly one
/// of its two names exists, as a regular file.
pub open spec fn filename_step_ok(source: Slot, destination: Slot) -> bool {
    (present(source) && !present(destination) && is_file(source)) || (!present(source) && present(
        destination,
    ) && is_file(destination))
}

/// Decides one format rename while recovering a book move: rename when only
/// the source name exists, keep when only the destination exists.
///
/// Returns `true` to rename. Returns [`Error::UnsupportedOperation`] when
/// both or neither exist or the existing one is not a regular file.
pub fn filename_step(source: Slot, destination: Slot) -> (r: Result<bool, Error>)
    ensures
        r is Ok <==> filename_step_ok(source, destination),
        r matches Ok(rename) ==> rename == present(source),
        r matches Ok(rename) ==> apply_steps(
            seq![source, destination],
            if rename {
                seq![FileStep::Rename { from: 0, to: 1 }]
            } else {
                Seq::empty()
            },
        ) == seq![Slot::Missing, if rename { source } else { destination }],
        r matches Err(e) ==> e is UnsupportedOperation,
{
    let ghost s0 = seq![source, destination];
    if occupied(source) && !occupied(destination) {
        if !file(source) {
            return Err(unsupported("recover moved format", "expected a regular file"));
        }
        let ghost one = seq![FileStep::Rename { from: 0, to: 1 }];
        assert(one.drop_last() =~= Seq::<FileStep>::empty());
        assert(apply_steps(s0, one.drop_last()) == s0);
        assert(one.last() == FileStep::Rename { from: 0, to: 1 });
        assert(apply_step(s0, one.last()) =~= seq![Slot::Missing, source]);
        assert(apply_steps(s0, one) =~= seq![
            Slot::Missing,
            source,
        ]);
        Ok(true)
    } else if !occupied(source) && occupied(destination) {
        if !file(destination) {
            return Err(unsupported("recover moved format", "expected a regular file"));
        }
        assert(apply_steps(s0, Seq::empty()) =~= seq![Slot::Missing, destination]);
        Ok(false)
    } else {
        Err(unsupported("recover moved format", "filesystem state is ambiguous"))
    }
}

/// Recovery of an asset change leaves no private file behind, whichever
/// way it goes: after a successful roll forward or back the backup and
/// staged paths are empty, and the asset path holds the new asset or the
/// old one.
pub proof fn lemma_asset_recovery_leaves_one_asset(
    destination: Slot,
    backup: Slot,
    staged: Slot,
    before_file: bool,
    after_file: bool,
)
    ensures
        forward_result(destination, backup, staged, after_file)[BACKUP as int] == Slot::Missing,
        forward_result(destination, backup, staged, after_file)[STAGED as int] == Slot::Missing,
        back_result(destination, backup, before_file)[BACKUP as int] == Slot::Missing,
        back_result(destination, backup, before_file)[STAGED as int] == Slot::Missing,
        forward_ok(destination, backup, staged, before_file, after_file) ==> (after_file <==> is_file(
            forward_result(destination, backup, staged, after_file)[DESTINATION as int],
        )),
        back_ok(destination, backup, staged, before_file) ==> (present(
            back_result(destination, backup, before_file)[DESTINATION as int],
        ) ==> is_file(back_result(destination, backup, before_file)[DESTINATION as int])),
{
}

/// Interrupting a write after its old file was moved aside and rolling it
/// back restores exactly the old file; rolling it forward leaves exactly
/// the staged one.
pub proof fn lemma_interrupted_replacement_resolves(old: u64, new: u64)
    ensures
        forward_ok(Slot::Missing, Slot::File(old), Slot::File(new), true, true),
        forward_result(Slot::Missing, Slot::File(old), Slot::File(new), true) == seq![
            Slot::File(new),
            Slot::Missing,
            Slot::Missing,
        ],
        back_ok(Slot::Missing, Slot::File(old), Slot::File(new), true),
        back_result(Slot::Missing, Slot::File(old), true) == seq![
            Slot::File(old),
            Slot::Missing,
            Slot::Missing,
        ],
{
}

/// Reconciling a trash change leaves the asset on the side the database
/// decides (live when it lists the asset, in the trash otherwise) and no
/// private previous entry.
pub proof fn lemma_trash_reconcile_follows_database(
    live: Slot,
    trash: Slot,
    previous: Slot,
    book: bool,
    database_present: bool,
    from_trash: bool,
)
    requires
        trash_ok(live, trash, previous, book, database_present, from_trash),
    ensures
        trash_result(live, trash, previous, database_present)[PREVIOUS as int] == Slot::Missing,
        database_present ==> fits(trash_result(live, trash, previous, database_present)[LIVE as int], book),
        !database_present ==> fits(
            trash_result(live, trash, previous, database_present)[TRASH as int],
            book,
        ) && trash_result(live, trash, previous, database_present)[LIVE as int] == Slot::Missing,
{
}

} // verus!
