use calibre::reconcile::{
    book_move_direction, filename_step, plan_add_recovery, plan_asset_back, plan_asset_forward,
    plan_move_directories, plan_removal_recovery, plan_trash_reconcile, FileStep, Slot, BACKUP,
    DESTINATION, LIVE, PREVIOUS, STAGED, TRASH,
};
use calibre::books::FormatRename;
use calibre::journal::book_move_record;
use calibre::Error;

/// Runs steps over a model of the paths.
fn apply(mut paths: Vec<Slot>, steps: &[FileStep]) -> Vec<Slot> {
    for step in steps {
        match *step {
            FileStep::Rename { from, to } => {
                assert_eq!(paths[to], Slot::Missing, "rename onto an existing path");
                assert_ne!(paths[from], Slot::Missing, "rename of a missing path");
                paths[to] = paths[from];
                paths[from] = Slot::Missing;
            }
            FileStep::Remove(at) => {
                assert_ne!(paths[at], Slot::Missing);
                paths[at] = Slot::Missing;
            }
        }
    }
    paths
}

#[test]
fn roll_forward_installs_the_staged_file() {
    let (steps, result) = plan_asset_forward(Slot::File(1), Slot::Missing, Slot::File(2), true, true);
    result.unwrap();
    let end = apply(vec![Slot::File(1), Slot::Missing, Slot::File(2)], &steps);
    assert_eq!(end[DESTINATION], Slot::File(2));
    assert_eq!(end[BACKUP], Slot::Missing);
    assert_eq!(end[STAGED], Slot::Missing);
}

#[test]
fn roll_forward_after_install_keeps_the_new_file() {
    let (steps, result) = plan_asset_forward(Slot::File(2), Slot::File(1), Slot::Missing, true, true);
    result.unwrap();
    let end = apply(vec![Slot::File(2), Slot::File(1), Slot::Missing], &steps);
    assert_eq!(end, vec![Slot::File(2), Slot::Missing, Slot::Missing]);
}

#[test]
fn roll_forward_removal_clears_everything() {
    let (steps, result) = plan_asset_forward(Slot::Missing, Slot::File(1), Slot::Missing, true, false);
    result.unwrap();
    let end = apply(vec![Slot::Missing, Slot::File(1), Slot::Missing], &steps);
    assert_eq!(end, vec![Slot::Missing, Slot::Missing, Slot::Missing]);
}

#[test]
fn roll_forward_refuses_ambiguous_state() {
    let (steps, result) = plan_asset_forward(Slot::File(1), Slot::File(3), Slot::File(2), true, true);
    assert!(steps.is_empty());
    assert!(matches!(result, Err(Error::UnsupportedOperation { .. })));
    let (_, result) = plan_asset_forward(Slot::Missing, Slot::Missing, Slot::Missing, false, true);
    assert!(matches!(result, Err(Error::UnsupportedOperation { .. })));
}

#[test]
fn roll_back_restores_the_backup() {
    let (steps, result) = plan_asset_back(Slot::File(2), Slot::File(1), Slot::File(3), true);
    result.unwrap();
    let end = apply(vec![Slot::File(2), Slot::File(1), Slot::File(3)], &steps);
    assert_eq!(end, vec![Slot::File(1), Slot::Missing, Slot::Missing]);
    let (steps, result) = plan_asset_back(Slot::File(2), Slot::Missing, Slot::Missing, false);
    result.unwrap();
    assert_eq!(apply(vec![Slot::File(2), Slot::Missing, Slot::Missing], &steps)[DESTINATION], Slot::Missing);
    let (_, result) = plan_asset_back(Slot::Missing, Slot::Missing, Slot::Missing, true);
    assert!(matches!(result, Err(Error::UnsupportedOperation { .. })));
    let (steps, result) = plan_asset_back(Slot::Directory(1), Slot::File(2), Slot::Missing, true);
    assert!(steps.is_empty());
    assert!(result.is_err());
}

#[test]
fn trash_reconcile_follows_the_database() {
    let (steps, result) = plan_trash_reconcile(Slot::Missing, Slot::File(1), Slot::File(2), false, true, true);
    result.unwrap();
    let end = apply(vec![Slot::Missing, Slot::File(1), Slot::File(2)], &steps);
    assert_eq!(end[LIVE], Slot::File(1));
    assert_eq!(end[TRASH], Slot::File(2));
    assert_eq!(end[PREVIOUS], Slot::Missing);

    let (steps, result) = plan_trash_reconcile(Slot::Directory(1), Slot::Missing, Slot::Directory(2), true, false, false);
    result.unwrap();
    let end = apply(vec![Slot::Directory(1), Slot::Missing, Slot::Directory(2)], &steps);
    assert_eq!(end, vec![Slot::Missing, Slot::Directory(1), Slot::Missing]);

    let (_, result) = plan_trash_reconcile(Slot::File(1), Slot::File(2), Slot::Missing, false, false, false);
    assert!(matches!(result, Err(Error::UnsupportedOperation { .. })));
    let (_, result) = plan_trash_reconcile(Slot::File(1), Slot::Missing, Slot::Missing, true, true, false);
    assert!(matches!(result, Err(Error::InvalidLibrary { .. })));
}

#[test]
fn add_and_removal_recovery() {
    let (steps, result) = plan_add_recovery(false, Slot::Directory(1));
    result.unwrap();
    assert_eq!(steps, vec![FileStep::Remove(0)]);
    let (steps, result) = plan_add_recovery(true, Slot::Directory(1));
    result.unwrap();
    assert!(steps.is_empty());
    assert!(plan_add_recovery(true, Slot::Missing).1.is_err());

    let (steps, result) = plan_removal_recovery(true, Slot::Missing, Slot::Directory(4));
    result.unwrap();
    assert_eq!(apply(vec![Slot::Missing, Slot::Directory(4)], &steps), vec![Slot::Directory(4), Slot::Missing]);
    let (steps, result) = plan_removal_recovery(false, Slot::Missing, Slot::Directory(4));
    result.unwrap();
    assert_eq!(apply(vec![Slot::Missing, Slot::Directory(4)], &steps), vec![Slot::Missing, Slot::Missing]);
    assert!(plan_removal_recovery(true, Slot::Directory(1), Slot::Directory(2)).1.is_err());
}

#[test]
fn book_moves_follow_the_stored_path() {
    let renames = vec![FormatRename { from: "Old - A.epub".into(), to: "New - A.epub".into() }];
    let record = book_move_record("A/Old (1)", "A/New (1)", "New - A", &renames).unwrap();
    assert_eq!(book_move_direction(&record, "A/New (1)", "j").unwrap(), true);
    assert_eq!(book_move_direction(&record, "A//Old (1)/", "j").unwrap(), false);
    assert!(matches!(book_move_direction(&record, "A/Other (1)", "j"), Err(Error::UnsupportedOperation { .. })));

    let plan = plan_move_directories(Slot::Directory(1), Slot::Missing, true).unwrap();
    assert!(plan.rename_before && plan.files_in_new && !plan.rename_after);
    let plan = plan_move_directories(Slot::Missing, Slot::Directory(1), false).unwrap();
    assert!(!plan.rename_before && plan.files_in_new && plan.rename_after);
    assert!(plan_move_directories(Slot::Directory(1), Slot::Directory(2), true).is_err());
    assert!(plan_move_directories(Slot::Missing, Slot::Missing, false).is_err());

    assert_eq!(filename_step(Slot::File(1), Slot::Missing).unwrap(), true);
    assert_eq!(filename_step(Slot::Missing, Slot::File(1)).unwrap(), false);
    assert!(filename_step(Slot::File(1), Slot::File(2)).is_err());
    assert!(filename_step(Slot::Missing, Slot::Missing).is_err());
}
