use dots::link::{
    on_cleared, on_copied, on_deleted, on_inspected, on_linked, on_overwrite_answer,
    on_parents_created, on_sure_answer,
};
use dots::{resolve, Action, Config, Entry, Occupant, Operation, OsFailure, Outcome};

const REPO: &str = "/home/u/.config/dots/files/common/bashrc";

#[test]
fn fresh_add_creates_parents_then_link() {
    let c = Config::new("/home/u/.config/dots/files".to_string(), "common".to_string(), vec![])
        .unwrap();
    let r = resolve("common/bashrc", &c, "box").unwrap();
    assert_eq!(r.repo_path, REPO);
    let a = on_inspected(Entry::Missing, &r.repo_path, false);
    assert_eq!(a, Action::CreateLink { retry: false });
    let a = on_linked(false, Err(OsFailure::NotFound));
    assert_eq!(a, Action::CreateParents);
    let a = on_parents_created(Ok(()));
    assert_eq!(a, Action::CreateLink { retry: true });
    let a = on_linked(true, Ok(()));
    assert_eq!(a, Action::Finish(Outcome::Linked));
    let again = on_inspected(Entry::Symlink(r.repo_path.clone()), &r.repo_path, false);
    assert_eq!(again, Action::Finish(Outcome::AlreadyLinked));
}

#[test]
fn second_add_is_a_no_op_even_when_forced() {
    let a = on_inspected(Entry::Symlink(REPO.to_string()), REPO, true);
    assert_eq!(a, Action::Finish(Outcome::AlreadyLinked));
    assert_eq!(Outcome::AlreadyLinked.exit_code(), 0);
}

#[test]
fn conflicting_add_declined_at_first_question() {
    let a = on_inspected(Entry::File, REPO, false);
    assert_eq!(a, Action::AskOverwrite(Occupant::Single));
    let a = on_overwrite_answer(Occupant::Single, false);
    assert_eq!(a, Action::Finish(Outcome::Declined));
    assert_eq!(Outcome::Declined.exit_code(), 1);
}

#[test]
fn conflicting_add_declined_at_second_question() {
    let a = on_overwrite_answer(Occupant::Single, true);
    assert_eq!(a, Action::AskSure(Occupant::Single));
    let a = on_sure_answer(Occupant::Single, false);
    assert_eq!(a, Action::Finish(Outcome::Declined));
}

#[test]
fn conflicting_add_confirmed_clears_then_links() {
    let a = on_sure_answer(Occupant::Directory, true);
    assert_eq!(a, Action::Clear(Occupant::Directory));
    assert_eq!(on_cleared(Ok(())), Action::CreateLink { retry: false });
}

#[test]
fn wrong_symlink_and_directory_are_occupants() {
    assert_eq!(
        on_inspected(Entry::Symlink("/elsewhere".to_string()), REPO, false),
        Action::AskOverwrite(Occupant::Single)
    );
    assert_eq!(
        on_inspected(Entry::Directory, REPO, false),
        Action::AskOverwrite(Occupant::Directory)
    );
}

#[test]
fn target_equality_is_exact() {
    let with_slash = format!("{REPO}/");
    assert_eq!(
        on_inspected(Entry::Symlink(with_slash), REPO, false),
        Action::AskOverwrite(Occupant::Single)
    );
}

#[test]
fn forced_add_skips_questions() {
    assert_eq!(on_inspected(Entry::Directory, REPO, true), Action::Clear(Occupant::Directory));
    assert_eq!(on_inspected(Entry::File, REPO, true), Action::Clear(Occupant::Single));
}

#[test]
fn remove_missing_target_is_fatal() {
    let a = on_deleted(Err(OsFailure::NotFound));
    assert_eq!(
        a,
        Action::Finish(Outcome::Fatal(Operation::DeletingSymlink, OsFailure::NotFound))
    );
    if let Action::Finish(o) = a {
        assert_eq!(o.exit_code(), 1);
    }
}

#[test]
fn remove_succeeds() {
    assert_eq!(on_deleted(Ok(())), Action::Finish(Outcome::Deleted));
    assert_eq!(Outcome::Deleted.exit_code(), 0);
}

#[test]
fn denials_escalate() {
    let pd = || Err(OsFailure::PermissionDenied);
    assert_eq!(on_linked(false, pd()), Action::Escalate(Operation::CreatingSymlink));
    assert_eq!(on_linked(true, pd()), Action::Escalate(Operation::CreatingSymlink));
    assert_eq!(on_parents_created(pd()), Action::Escalate(Operation::CreatingParents));
    assert_eq!(on_cleared(pd()), Action::Escalate(Operation::RemovingExisting));
    assert_eq!(on_deleted(pd()), Action::Escalate(Operation::DeletingSymlink));
    assert_eq!(on_copied(pd()), Action::Escalate(Operation::Copying));
}

#[test]
fn parents_are_made_once() {
    assert_eq!(
        on_linked(true, Err(OsFailure::NotFound)),
        Action::Finish(Outcome::Fatal(Operation::CreatingSymlink, OsFailure::NotFound))
    );
}

#[test]
fn other_failures() {
    let other = || OsFailure::Other("ReadOnlyFilesystem".to_string());
    let w = on_linked(false, Err(other()));
    assert_eq!(w, Action::Finish(Outcome::Warning(Operation::CreatingSymlink, other())));
    assert_eq!(Outcome::Warning(Operation::CreatingSymlink, other()).exit_code(), 0);
    assert_eq!(
        on_parents_created(Err(other())),
        Action::Finish(Outcome::Fatal(Operation::CreatingParents, other()))
    );
    assert_eq!(
        on_cleared(Err(other())),
        Action::Finish(Outcome::Fatal(Operation::RemovingExisting, other()))
    );
    assert_eq!(
        on_deleted(Err(other())),
        Action::Finish(Outcome::Fatal(Operation::DeletingSymlink, other()))
    );
    assert_eq!(
        on_copied(Err(other())),
        Action::Finish(Outcome::Fatal(Operation::Copying, other()))
    );
    assert_eq!(Outcome::Fatal(Operation::Copying, other()).exit_code(), 1);
}

#[test]
fn import_continues_with_forced_add() {
    assert_eq!(on_copied(Ok(())), Action::Inspect { force: true });
    assert_eq!(on_inspected(Entry::File, REPO, true), Action::Clear(Occupant::Single));
}
