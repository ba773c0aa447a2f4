//! The directory-creation plan: parent computation and the recursive
//! walk, driven with scripted outcomes.

use rawfs::dirbuilder::{create_dir_all, parent_of_path, CreatePlan, DirBuilder, PlanState};

#[test]
fn parent_of_path_cases() {
    assert_eq!(parent_of_path(b"a/b"), Some(b"a".to_vec()));
    assert_eq!(parent_of_path(b"a"), Some(b"".to_vec()));
    assert_eq!(parent_of_path(b"/a"), Some(b"/".to_vec()));
    assert_eq!(parent_of_path(b"/a/b/c"), Some(b"/a/b".to_vec()));
    assert_eq!(parent_of_path(b"a//b/"), Some(b"a".to_vec()));
    assert_eq!(parent_of_path(b"/"), None);
    assert_eq!(parent_of_path(b""), None);
    assert_eq!(parent_of_path(b"//"), None);
}

#[test]
fn single_mkdir_plan() {
    let mut plan: CreatePlan = DirBuilder::new().create(b"/tmp/solo");
    assert_eq!(plan.state(), PlanState::Making);
    assert_eq!(plan.mode_bits(), 0o777);
    assert_eq!(plan.next_path(), b"/tmp/solo");
    plan.on_mkdir(Ok(()));
    assert_eq!(plan.state(), PlanState::Finished);
}

#[test]
fn single_mkdir_failure_is_final() {
    // A non-recursive plan passes the kernel's error straight through.
    let mut plan = DirBuilder::new().create(b"/tmp/solo2");
    plan.on_mkdir(Err(libc::EACCES));
    assert_eq!(plan.state(), PlanState::Failed(libc::EACCES));
}

#[test]
fn recursive_plan_builds_missing_parents_first() {
    let mut plan = create_dir_all(b"a/b/c");
    assert_eq!(plan.next_path(), b"a/b/c");
    plan.on_mkdir(Err(libc::ENOENT));
    assert_eq!(plan.next_path(), b"a/b");
    plan.on_mkdir(Err(libc::ENOENT));
    assert_eq!(plan.next_path(), b"a");
    plan.on_mkdir(Ok(()));
    assert_eq!(plan.next_path(), b"a/b");
    plan.on_mkdir(Ok(()));
    assert_eq!(plan.next_path(), b"a/b/c");
    plan.on_mkdir(Ok(()));
    assert_eq!(plan.state(), PlanState::Finished);
}

#[test]
fn recursive_plan_accepts_existing_directories() {
    let mut plan = create_dir_all(b"x/y");
    plan.on_mkdir(Err(libc::EEXIST));
    assert_eq!(plan.state(), PlanState::CheckingDir(libc::EEXIST));
    assert_eq!(plan.next_path(), b"x/y");
    plan.on_is_dir(true);
    assert_eq!(plan.state(), PlanState::Finished);
}

#[test]
fn recursive_plan_fails_over_a_non_directory() {
    let mut plan = create_dir_all(b"x/z");
    plan.on_mkdir(Err(libc::EEXIST));
    plan.on_is_dir(false);
    assert_eq!(plan.state(), PlanState::Failed(libc::EEXIST));
}

#[test]
fn recursive_plan_retries_after_parent_check() {
    // The child's second failure, after its parents exist, falls back
    // to the directory check whatever the error is.
    let mut plan = create_dir_all(b"p/q");
    plan.on_mkdir(Err(libc::ENOENT));
    assert_eq!(plan.next_path(), b"p");
    plan.on_mkdir(Ok(()));
    assert_eq!(plan.next_path(), b"p/q");
    plan.on_mkdir(Err(libc::ENOENT));
    assert_eq!(plan.state(), PlanState::CheckingDir(libc::ENOENT));
}

#[test]
fn recursive_plan_for_the_empty_path_has_nothing_to_do() {
    let plan = create_dir_all(b"");
    assert_eq!(plan.state(), PlanState::Finished);
}

#[test]
fn builder_flags() {
    let b = DirBuilder::new();
    assert_eq!(b.mode, 0o777);
    assert!(!b.recursive);
    let b = b.recursive(true).mode(0o700);
    assert!(b.recursive);
    assert_eq!(b.mode, 0o700);
}
