//! The decisions of the link lifecycle: creating, repairing, removing and importing a link.
//!
//! Each command is a short run of actions. The caller performs an action on the filesystem or
//! the user, and hands what came of it to the matching `on_*` function, which names the next
//! action. Every step lowers `rank`, so a run ends after a bounded number of steps; the
//! parent directories are created at most once per run.
//!
//! What stands at the system path is looked at once, at the start of `add`. Another process may
//! change it before the link is made; nothing here guards against that.
use vstd::prelude::*;

use crate::text::same_text;

verus! {

/// What stands at a system path, seen without following a final symbolic link.
#[derive(Debug, PartialEq, Eq)]
pub enum Entry {
    /// Nothing.
    Missing,
    /// A symbolic link, with the target as stored in it.
    Symlink(String),
    /// A directory.
    Directory,
    /// Anything else: a regular file, a device, a socket.
    File,
}

/// How a filesystem call failed, as far as the decisions tell failures apart.
#[derive(Debug, PartialEq, Eq)]
pub enum OsFailure {
    PermissionDenied,
    NotFound,
    /// Any other failure, with a short description of it.
    Other(String),
}

/// A change to the filesystem that may need higher privileges.
#[derive(Debug, Clone, Copy, PartialEq, Eq, Structural)]
pub enum Operation {
    CreatingSymlink,
    CreatingParents,
    RemovingExisting,
    DeletingSymlink,
    Copying,
}

/// What occupies a system path that is about to be overwritten.
#[derive(Debug, Clone, Copy, PartialEq, Eq, Structural)]
pub enum Occupant {
    /// A directory, removed with all it holds.
    Directory,
    /// A file or a symbolic link, removed by itself.
    Single,
}

/// How a command ends.
#[derive(Debug, PartialEq, Eq)]
pub enum Outcome {
    /// The link already pointed at the repository; nothing was changed.
    AlreadyLinked,
    /// The link was created.
    Linked,
    /// The entry at the system path was deleted.
    Deleted,
    /// The user declined to overwrite what stood at the system path; nothing was changed.
    Declined,
    /// The operation failed; the failure is reported and the command still succeeds.
    Warning(Operation, OsFailure),
    /// The operation failed and the command fails with it.
    Fatal(Operation, OsFailure),
}

/// The next thing to do.
#[derive(Debug, PartialEq, Eq)]
pub enum Action {
    /// Copy the system path's file into the repository (the start of `import`).
    Copy,
    /// Delete the entry at the system path (the start of `remove`).
    Delete,
    /// Look at what stands at the system path (the start of `add`).
    Inspect { force: bool },
    /// Ask whether the existing entry may be overwritten.
    AskOverwrite(Occupant),
    /// Ask to confirm the overwrite.
    AskSure(Occupant),
    /// Remove the existing entry.
    Clear(Occupant),
    /// Create the link; `retry` is set once the parent directories have been made.
    CreateLink { retry: bool },
    /// Create the missing parent directories of the system path.
    CreateParents,
    /// Run the whole command again with higher privileges.
    Escalate(Operation),
    /// Stop.
    Finish(Outcome),
}

/// An upper bound on the number of steps left after `a`.
pub open spec fn rank(a: Action) -> nat {
    match a {
        Action::Copy => 8,
        Action::Inspect { .. } => 7,
        Action::AskOverwrite(_) => 6,
        Action::AskSure(_) => 5,
        Action::Clear(_) => 4,
        Action::CreateLink { retry } => if retry {
            1
        } else {
            3
        },
        Action::CreateParents => 2,
        Action::Delete => 1,
        Action::Escalate(_) => 0,
        Action::Finish(_) => 0,
    }
}

/// Whether performing `a` changes the filesystem.
pub open spec fn mutates(a: Action) -> bool {
    match a {
        Action::Copy | Action::Delete | Action::Clear(_) | Action::CreateLink { .. }
        | Action::CreateParents => true,
        _ => false,
    }
}

/// Whether a command that ends with `o` succeeds.
pub open spec fn succeeds(o: Outcome) -> bool {
    match o {
        Outcome::AlreadyLinked | Outcome::Linked | Outcome::Deleted | Outcome::Warning(..) => true,
        Outcome::Declined | Outcome::Fatal(..) => false,
    }
}

impl Outcome {
    /// The process exit status for a command that ends this way.
    pub fn exit_code(&self) -> (r: i32)
        ensures
            r == (if succeeds(*self) {
                0i32
            } else {
                1i32
            }),
    {
        match self {
            Outcome::AlreadyLinked | Outcome::Linked | Outcome::Deleted | Outcome::Warning(..) => 0,
            Outcome::Declined | Outcome::Fatal(..) => 1,
        }
    }
}

pub open spec fn occupant_of(found: Entry) -> Occupant {
    match found {
        Entry::Directory => Occupant::Directory,
        _ => Occupant::Single,
    }
}

/// The decision of `add` once the system path has been looked at.
pub open spec fn inspected(found: Entry, repo_path: Seq<char>, force: bool) -> Action {
    match found {
        Entry::Missing => Action::CreateLink { retry: false },
        Entry::Symlink(target) if target@ == repo_path => Action::Finish(Outcome::AlreadyLinked),
        _ => if force {
            Action::Clear(occupant_of(found))
        } else {
            Action::AskOverwrite(occupant_of(found))
        },
    }
}

pub open spec fn overwrite_answered(occupant: Occupant, yes: bool) -> Action {
    if yes {
        Action::AskSure(occupant)
    } else {
        Action::Finish(Outcome::Declined)
    }
}

pub open spec fn sure_answered(occupant: Occupant, yes: bool) -> Action {
    if yes {
        Action::Clear(occupant)
    } else {
        Action::Finish(Outcome::Declined)
    }
}

/// What follows an operation that failed: escalation on a denial, else `otherwise`.
pub open spec fn on_failure(op: Operation, f: OsFailure, otherwise: Action) -> Action {
    match f {
        OsFailure::PermissionDenied => Action::Escalate(op),
        _ => otherwise,
    }
}

pub open spec fn cleared(result: Result<(), OsFailure>) -> Action {
    match result {
        Ok(()) => Action::CreateLink { retry: false },
        Err(f) => on_failure(
            Operation::RemovingExisting,
            f,
            Action::Finish(Outcome::Fatal(Operation::RemovingExisting, f)),
        ),
    }
}

pub open spec fn linked(retry: bool, result: Result<(), OsFailure>) -> Action {
    match result {
        Ok(()) => Action::Finish(Outcome::Linked),
        Err(OsFailure::NotFound) => if retry {
            Action::Finish(Outcome::Fatal(Operation::CreatingSymlink, OsFailure::NotFound))
        } else {
            Action::CreateParents
        },
        Err(f) => on_failure(
            Operation::CreatingSymlink,
            f,
            Action::Finish(Outcome::Warning(Operation::CreatingSymlink, f)),
        ),
    }
}

pub open spec fn parents_created(result: Result<(), OsFailure>) -> Action {
    match result {
        Ok(()) => Action::CreateLink { retry: true },
        Err(f) => on_failure(
            Operation::CreatingParents,
            f,
            Action::Finish(Outcome::Fatal(Operation::CreatingParents, f)),
        ),
    }
}

pub open spec fn deleted(result: Result<(), OsFailure>) -> Action {
    match result {
        Ok(()) => Action::Finish(Outcome::Deleted),
        Err(f) => on_failure(
            Operation::DeletingSymlink,
            f,
            Action::Finish(Outcome::Fatal(Operation::DeletingSymlink, f)),
        ),
    }
}

pub open spec fn copied(result: Result<(), OsFailure>) -> Action {
    match result {
        Ok(()) => Action::Inspect { force: true },
        Err(f) => on_failure(
            Operation::Copying,
            f,
            Action::Finish(Outcome::Fatal(Operation::Copying, f)),
        ),
    }
}

/// After `Inspect`: a missing entry is created, the right link is left alone, and anything
/// else is overwritten, at once when forced and after two questions otherwise.
pub fn on_inspected(found: Entry, repo_path: &str, force: bool) -> (r: Action)
    ensures
        r == inspected(found, repo_path@, force),
        rank(r) < rank(Action::Inspect { force }),
{
    let occupant = match &found {
        Entry::Missing => {
            return Action::CreateLink { retry: false };
        },
        Entry::Symlink(target) => {
            if same_text(target.as_str(), repo_path) {
                return Action::Finish(Outcome::AlreadyLinked);
            }
            Occupant::Single
        },
        Entry::Directory => Occupant::Directory,
        Entry::File => Occupant::Single,
    };
    if force {
        Action::Clear(occupant)
    } else {
        Action::AskOverwrite(occupant)
    }
}

/// After the first question.
pub fn on_overwrite_answer(occupant: Occupant, yes: bool) -> (r: Action)
    ensures
        r == overwrite_answered(occupant, yes),
        rank(r) < rank(Action::AskOverwrite(occupant)),
{
    if yes {
        Action::AskSure(occupant)
    } else {
        Action::Finish(Outcome::Declined)
    }
}

/// After the second question.
pub fn on_sure_answer(occupant: Occupant, yes: bool) -> (r: Action)
    ensures
        r == sure_answered(occupant, yes),
        rank(r) < rank(Action::AskSure(occupant)),
{
    if yes {
        Action::Clear(occupant)
    } else {
        Action::Finish(Outcome::Declined)
    }
}

/// After removing the entry that stood in the way.
pub fn on_cleared(result: Result<(), OsFailure>) -> (r: Action)
    ensures
        r == cleared(result),
        forall|o: Occupant| rank(r) < #[trigger] rank(Action::Clear(o)),
{
    match result {
        Ok(()) => Action::CreateLink { retry: false },
        Err(OsFailure::PermissionDenied) => Action::Escalate(Operation::RemovingExisting),
        Err(f) => Action::Finish(Outcome::Fatal(Operation::RemovingExisting, f)),
    }
}

/// After trying to create the link. A missing parent directory is made once; other failures
/// that no privilege would cure are reported without failing the command.
pub fn on_linked(retry: bool, result: Result<(), OsFailure>) -> (r: Action)
    ensures
        r == linked(retry, result),
        rank(r) < rank(Action::CreateLink { retry }),
{
    match result {
        Ok(()) => Action::Finish(Outcome::Linked),
        Err(OsFailure::PermissionDenied) => Action::Escalate(Operation::CreatingSymlink),
        Err(OsFailure::NotFound) => {
            if retry {
                Action::Finish(Outcome::Fatal(Operation::CreatingSymlink, OsFailure::NotFound))
            } else {
                Action::CreateParents
            }
        },
        Err(f) => Action::Finish(Outcome::Warning(Operation::CreatingSymlink, f)),
    }
}

/// After trying to create the parent directories.
pub fn on_parents_created(result: Result<(), OsFailure>) -> (r: Action)
    ensures
        r == parents_created(result),
        rank(r) < rank(Action::CreateParents),
{
    match result {
        Ok(()) => Action::CreateLink { retry: true },
        Err(OsFailure::PermissionDenied) => Action::Escalate(Operation::CreatingParents),
        Err(f) => Action::Finish(Outcome::Fatal(Operation::CreatingParents, f)),
    }
}

/// After trying to delete the entry at the system path. An entry that is not there is a
/// failure like any other.
pub fn on_deleted(result: Result<(), OsFailure>) -> (r: Action)
    ensures
        r == deleted(result),
        rank(r) < rank(Action::Delete),
{
    match result {
        Ok(()) => Action::Finish(Outcome::Deleted),
        Err(OsFailure::PermissionDenied) => Action::Escalate(Operation::DeletingSymlink),
        Err(f) => Action::Finish(Outcome::Fatal(Operation::DeletingSymlink, f)),
    }
}

/// After copying the system path's file into the repository: on success, `add` follows with
/// the overwrite forced.
pub fn on_copied(result: Result<(), OsFailure>) -> (r: Action)
    ensures
        r == copied(result),
        rank(r) < rank(Action::Copy),
{
    match result {
        Ok(()) => Action::Inspect { force: true },
        Err(OsFailure::PermissionDenied) => Action::Escalate(Operation::Copying),
        Err(f) => Action::Finish(Outcome::Fatal(Operation::Copying, f)),
    }
}

/// Adding twice changes nothing the second time. A run of `add` ends as linked only after the
/// link was created, and as already linked only where the link it found points at the
/// repository path; either way a link to the repository path stands at the system path. A
/// second run with the same inputs finds that link and ends at once, succeeding, with no
/// change to the filesystem.
pub proof fn lemma_add_idempotent(target: String, repo_path: Seq<char>, force: bool)
    requires
        target@ == repo_path,
    ensures
        forall|retry: bool, result: Result<(), OsFailure>|
            #[trigger] linked(retry, result) == Action::Finish(Outcome::Linked) ==> result is Ok,
        forall|found: Entry|
            #[trigger] inspected(found, repo_path, force) == Action::Finish(Outcome::AlreadyLinked)
                ==> (found matches Entry::Symlink(t) && t@ == repo_path),
        inspected(Entry::Symlink(target), repo_path, force) == Action::Finish(
            Outcome::AlreadyLinked,
        ),
        !mutates(inspected(Entry::Symlink(target), repo_path, force)),
        succeeds(Outcome::AlreadyLinked),
{
}

} // verus!
