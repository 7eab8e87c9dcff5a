use sortie_organizer::triage::confirm_move;
use sortie_organizer::triage::plan_process;
use sortie_organizer::triage::plan_undo;
use sortie_organizer::triage::TriagePlan;
use sortie_organizer::types::OrganizerError;
use sortie_organizer::types::SwipeAction;

fn expect_move(r: Result<TriagePlan, OrganizerError>) -> (String, String) {
    match r {
        Ok(TriagePlan::Move { target_dir, target_path }) => (target_dir, target_path),
        other => panic!("expected a move plan, got {:?}", other),
    }
}

#[test]
fn delete_moves_into_a_trash_sibling() {
    let (dir, path) = expect_move(plan_process("/videos/clip1.mp4", &SwipeAction::Delete, true));
    assert_eq!(dir, "/videos/_Trash");
    assert_eq!(path, "/videos/_Trash/clip1.mp4");
}

#[test]
fn a_roll_and_b_roll_move_into_their_named_subfolders() {
    let (dir, path) = expect_move(plan_process("/videos/clip1.mp4", &SwipeAction::ARoll, true));
    assert_eq!(dir, "/videos/_ARoll");
    assert_eq!(path, "/videos/_ARoll/clip1.mp4");
    let (dir, path) = expect_move(plan_process("/videos/clip1.mp4", &SwipeAction::BRoll, true));
    assert_eq!(dir, "/videos/_BRoll");
    assert_eq!(path, "/videos/_BRoll/clip1.mp4");
}

#[test]
fn skip_changes_nothing() {
    let r = plan_process("/videos/clip1.mp4", &SwipeAction::Skip, true);
    assert_eq!(r, Ok(TriagePlan::Stay { path: "/videos/clip1.mp4".to_string() }));
}

#[test]
fn relative_custom_folder_resolves_against_the_parent() {
    let action = SwipeAction::CustomFolder { path: "keepers".to_string() };
    let (dir, path) = expect_move(plan_process("/videos/clip1.mp4", &action, true));
    assert_eq!(dir, "/videos/keepers");
    assert_eq!(path, "/videos/keepers/clip1.mp4");
}

#[test]
fn absolute_custom_folder_is_used_as_is() {
    let action = SwipeAction::CustomFolder { path: "/archive/best".to_string() };
    let (dir, path) = expect_move(plan_process("/videos/clip1.mp4", &action, true));
    assert_eq!(dir, "/archive/best");
    assert_eq!(path, "/archive/best/clip1.mp4");
}

#[test]
fn windows_style_custom_folder_counts_as_absolute() {
    let action = SwipeAction::CustomFolder { path: "C:\\keep".to_string() };
    let (dir, _) = expect_move(plan_process("/videos/clip1.mp4", &action, true));
    assert_eq!(dir, "C:\\keep");
}

#[test]
fn stale_catalog_entry_is_source_not_found() {
    let r = plan_process("/videos/gone.mp4", &SwipeAction::Delete, false);
    assert_eq!(r, Err(OrganizerError::SourceNotFound));
}

#[test]
fn path_without_filename_is_invalid_source() {
    assert_eq!(
        plan_process("/", &SwipeAction::Delete, true),
        Err(OrganizerError::InvalidSource)
    );
    assert_eq!(
        plan_process("/videos/", &SwipeAction::Delete, true),
        Err(OrganizerError::InvalidSource)
    );
    assert_eq!(
        plan_process("/videos/..", &SwipeAction::Delete, true),
        Err(OrganizerError::InvalidSource)
    );
}

#[test]
fn occupied_destination_is_refused_without_mutation() {
    // The plan itself mutates nothing; an occupied destination is refused at
    // the last gate, so the rename is never requested.
    let (_, target) = expect_move(plan_process("/videos/clip1.mp4", &SwipeAction::Delete, true));
    assert_eq!(confirm_move(&target, true), Err(OrganizerError::TargetExists));
    assert_eq!(confirm_move(&target, false), Ok(target));
}

#[test]
fn undo_restores_the_original_path_exactly() {
    let original = "/videos/clip1.mp4";
    let (_, moved) = expect_move(plan_process(original, &SwipeAction::Delete, true));
    let undo = plan_undo(&moved, original, true).unwrap();
    assert_eq!(undo.restore_dir, "/videos");
    assert_eq!(undo.restore_path, original);
}

#[test]
fn undo_of_a_vanished_file_is_source_not_found() {
    assert_eq!(
        plan_undo("/videos/_Trash/clip1.mp4", "/videos/clip1.mp4", false),
        Err(OrganizerError::SourceNotFound)
    );
}

#[test]
fn undo_never_overwrites_an_occupied_original() {
    let undo = plan_undo("/videos/_Trash/clip1.mp4", "/videos/clip1.mp4", true).unwrap();
    assert_eq!(confirm_move(&undo.restore_path, true), Err(OrganizerError::TargetExists));
}
