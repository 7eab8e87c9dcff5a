//! Triage engine: maps a swipe action on a clip to the filesystem move it
//! asks for, and plans the single-step undo of such a move.
//!
//! The engine is stateless and pure: it computes where a file must go and
//! when the operation must be refused; the caller performs the existence
//! checks and the rename, and re-validates the refusal conditions right
//! before the rename to keep the race window minimal. Nothing here ever
//! plans an overwrite: a move to an occupied destination is refused with
//! `TargetExists`.

use vstd::prelude::*;

use crate::pathops::spec_file_name;
use crate::pathops::spec_is_absolute;
use crate::pathops::spec_join;
use crate::pathops::spec_parent;
use crate::pathops::file_name_of;
use crate::pathops::is_absolute_path;
use crate::pathops::join_path;
use crate::pathops::parent_of;
use crate::types::ActionView;
use crate::types::OrganizerError;
use crate::types::SwipeAction;

verus! {

/// The directory a non-skip action sends a clip to, given the clip's parent
/// directory. Deletion goes to a `_Trash` sibling folder; the two keep
/// actions go to the fixed literals `_ARoll` and `_BRoll`; a custom folder
/// is taken as-is when absolute, else resolved against the parent.
pub open spec fn spec_target_dir(parent: Seq<char>, action: ActionView) -> Seq<char> {
    match action {
        ActionView::Delete => spec_join(parent, "_Trash"@),
        ActionView::ARoll => spec_join(parent, "_ARoll"@),
        ActionView::BRoll => spec_join(parent, "_BRoll"@),
        ActionView::CustomFolder { path } => if spec_is_absolute(path) {
            path
        } else {
            spec_join(parent, path)
        },
        ActionView::Skip => parent,
    }
}

/// What a swipe action asks of the filesystem: nothing, or one move.
#[derive(Debug, Clone, PartialEq)]
pub enum TriagePlan {
    /// No filesystem change; the clip stays at its path.
    Stay { path: String },
    /// Move the clip into `target_dir` (created if absent), as `target_path`.
    Move { target_dir: String, target_path: String },
}

/// What a single-step undo asks of the filesystem.
#[derive(Debug, Clone, PartialEq)]
pub struct UndoPlan {
    /// The original parent directory, recreated if it no longer exists.
    pub restore_dir: String,
    /// The exact original path the file is moved back to.
    pub restore_path: String,
}

/// Plans the filesystem effect of one swipe action on one clip.
///
/// Failure modes, in order: the clip's current path must still exist on
/// disk (`SourceNotFound`, a stale catalog entry), and must have a filename
/// component (`InvalidSource`, defensive). A `Skip` then changes nothing;
/// every other action plans a move of the file, under its own name, into
/// the action's target directory.
pub fn plan_process(clip_path: &str, action: &SwipeAction, source_exists: bool) -> (r: Result<
    TriagePlan,
    OrganizerError,
>)
    ensures
        !source_exists ==> r == Err::<TriagePlan, OrganizerError>(OrganizerError::SourceNotFound),
        source_exists && spec_file_name(clip_path@) is None ==> r == Err::<
            TriagePlan,
            OrganizerError,
        >(OrganizerError::InvalidSource),
        source_exists && spec_file_name(clip_path@) is Some ==> match r {
            Ok(TriagePlan::Stay { path }) => action@ is Skip && path@ == clip_path@,
            Ok(TriagePlan::Move { target_dir, target_path }) => !(action@ is Skip) && target_dir@
                == spec_target_dir(spec_parent(clip_path@), action@) && (match spec_file_name(
                clip_path@,
            ) {
                Some(f) => target_path@ == spec_join(target_dir@, f),
                None => false,
            }),
            Err(_) => false,
        },
{
    if !source_exists {
        return Err(OrganizerError::SourceNotFound);
    }
    let file_name = match file_name_of(clip_path) {
        Some(f) => f,
        None => {
            return Err(OrganizerError::InvalidSource);
        },
    };
    match action {
        SwipeAction::Skip => Ok(TriagePlan::Stay { path: String::from_str(clip_path) }),
        SwipeAction::Delete => {
            let parent = parent_of(clip_path);
            let target_dir = join_path(parent.as_str(), "_Trash");
            let target_path = join_path(target_dir.as_str(), file_name.as_str());
            Ok(TriagePlan::Move { target_dir, target_path })
        },
        SwipeAction::ARoll => {
            let parent = parent_of(clip_path);
            let target_dir = join_path(parent.as_str(), "_ARoll");
            let target_path = join_path(target_dir.as_str(), file_name.as_str());
            Ok(TriagePlan::Move { target_dir, target_path })
        },
        SwipeAction::BRoll => {
            let parent = parent_of(clip_path);
            let target_dir = join_path(parent.as_str(), "_BRoll");
            let target_path = join_path(target_dir.as_str(), file_name.as_str());
            Ok(TriagePlan::Move { target_dir, target_path })
        },
        SwipeAction::CustomFolder { path } => {
            let target_dir = if is_absolute_path(path.as_str()) {
                path.clone()
            } else {
                let parent = parent_of(clip_path);
                join_path(parent.as_str(), path.as_str())
            };
            let target_path = join_path(target_dir.as_str(), file_name.as_str());
            Ok(TriagePlan::Move { target_dir, target_path })
        },
    }
}

/// The last gate before a rename: a move (or an undo) to a destination that
/// is already occupied is refused, so nothing is ever overwritten; an
/// unoccupied destination is confirmed unchanged.
pub fn confirm_move(target_path: &str, target_exists: bool) -> (r: Result<String, OrganizerError>)
    ensures
        target_exists ==> r == Err::<String, OrganizerError>(OrganizerError::TargetExists),
        !target_exists ==> match r {
            Ok(p) => p@ == target_path@,
            Err(_) => false,
        },
{
    if target_exists {
        Err(OrganizerError::TargetExists)
    } else {
        Ok(String::from_str(target_path))
    }
}

/// Plans the single-step undo of a move: the file at `current_path` goes
/// back exactly to `original_path`, whose parent directory is recreated
/// first when it no longer exists. Fails with `SourceNotFound` when the
/// file is no longer at `current_path`. The caller must still refuse an
/// occupied `original_path` through [`confirm_move`]: undo never overwrites.
pub fn plan_undo(current_path: &str, original_path: &str, current_exists: bool) -> (r: Result<
    UndoPlan,
    OrganizerError,
>)
    ensures
        !current_exists ==> r == Err::<UndoPlan, OrganizerError>(OrganizerError::SourceNotFound),
        current_exists ==> match r {
            Ok(plan) => plan.restore_dir@ == spec_parent(original_path@) && plan.restore_path@
                == original_path@,
            Err(_) => false,
        },
{
    if !current_exists {
        return Err(OrganizerError::SourceNotFound);
    }
    Ok(
        UndoPlan {
            restore_dir: parent_of(original_path),
            restore_path: String::from_str(original_path),
        },
    )
}

} // verus!
