use smol_cli::edits::Edit;
use smol_cli::paths::{backup_path, PathError};
use smol_cli::review::{
    prepare_edit, undo_report, undo_step, Preparation, Session, UndoIo, UndoReport, UndoStep,
};

fn edit(path: &str, op: &str, anchor: &str, snippet: &str) -> Edit {
    Edit {
        path: path.to_string(),
        op: op.to_string(),
        anchor: anchor.to_string(),
        snippet: snippet.to_string(),
        limit: 1,
        rationale: Some("because".to_string()),
    }
}

#[test]
fn unchanged_content_is_no_change() {
    let e = edit("a.txt", "replace", "foo", "foo");
    let p = prepare_edit(&e, Ok("/repo/a.txt".to_string()), Some("foo bar".to_string()));
    assert!(matches!(p, Preparation::NoChange));
    let mut s = Session::new();
    assert!(!s.begin_review(vec![p], "/b/1".to_string()));
    assert!(s.review.is_none());
    assert!(s.current_write("/repo").is_none());
    assert!(s.undo_stack.is_empty());
}

#[test]
fn preparation_outcomes() {
    let e = edit("/etc/x", "replace", "a", "b");
    assert!(matches!(prepare_edit(&e, Ok("/etc/x".to_string()), None), Preparation::Blocked));
    let e = edit("x/../../y", "replace", "a", "b");
    assert!(matches!(prepare_edit(&e, Err(PathError::PathEscape), None), Preparation::Escaped));
    let e = edit("a.txt", "replace", "zz", "b");
    assert!(matches!(prepare_edit(&e, Ok("/repo/a.txt".to_string()), Some("abc".to_string())), Preparation::Failed(_)));
    let e = edit("new.txt", "insert_after", "", "hello\n");
    match prepare_edit(&e, Ok("/repo/new.txt".to_string()), None) {
        Preparation::Ready(p) => {
            assert_eq!(p.new_contents, "hello\n");
            assert_eq!(p.diff, "--- a/new.txt\n+++ b/new.txt\n+hello\n");
            assert_eq!(p.rationale, Some("because".to_string()));
        }
        _ => panic!("expected a prepared edit"),
    }
}

#[test]
fn review_applies_skips_and_undoes() {
    let a = prepare_edit(&edit("a.txt", "replace", "1", "2"), Ok("/repo/a.txt".to_string()), Some("1".to_string()));
    let b = prepare_edit(&edit("b.txt", "replace", "3", "4"), Ok("/repo/b.txt".to_string()), Some("3".to_string()));
    let mut s = Session::new();
    assert!(s.begin_review(vec![a, Preparation::NoChange, b], "/bk/5".to_string()));
    assert_eq!(s.review.as_ref().unwrap().edits.len(), 2);
    let w = s.current_write("/repo").unwrap();
    assert_eq!(w.target, "/repo/a.txt");
    assert_eq!(w.backup_file, "/bk/5/a.txt");
    assert_eq!(w.contents, "2");
    assert_eq!(backup_path("/bk/5", "/repo/a.txt", "/repo").unwrap(), w.backup_file);
    s.applied(w.backup_file.clone());
    assert_eq!(s.review.as_ref().unwrap().index, 1);
    s.skip_current();
    assert!(s.review.is_none());
    assert_eq!(s.undo_stack, vec!["/bk/5/a.txt".to_string()]);
    assert_eq!(s.undo_last(), Some("/bk/5/a.txt".to_string()));
    assert_eq!(s.undo_last(), None);
    assert!(s.begin_turn());
    assert!(!s.begin_turn());
    s.finish_turn();
    assert!(s.begin_turn());
    s.cancel_review();
    assert!(s.review.is_none());
}

#[test]
fn undo_of_created_file_removes_it() {
    match undo_step("/repo", "/bk", "/bk/5/new.txt", false) {
        UndoStep::Remove { target } => {
            assert_eq!(target, "/repo/new.txt");
            match undo_report(UndoStep::Remove { target: target.clone() }, UndoIo::NotFound) {
                UndoReport::NothingToUndo { target: t } => assert_eq!(t, "/repo/new.txt"),
                _ => panic!("expected nothing to undo"),
            }
            assert!(matches!(undo_report(UndoStep::Remove { target }, UndoIo::Done), UndoReport::Removed { .. }));
        }
        _ => panic!("expected a removal"),
    }
    match undo_step("/repo", "/bk", "/bk/5/src/a.rs", true) {
        UndoStep::Restore { backup, target } => {
            assert_eq!(backup, "/bk/5/src/a.rs");
            assert_eq!(target, "/repo/src/a.rs");
        }
        _ => panic!("expected a restore"),
    }
    assert!(matches!(undo_step("/repo", "/bk", "/other/x", true), UndoStep::UnknownTarget));
    assert!(matches!(
        undo_report(UndoStep::UnknownTarget, UndoIo::Done),
        UndoReport::UnknownTarget
    ));
    match undo_report(UndoStep::Remove { target: "t".to_string() }, UndoIo::Failed { error: "denied".to_string() }) {
        UndoReport::Failed { error } => assert_eq!(error, "denied"),
        _ => panic!("expected a failure"),
    }
}

#[test]
fn restore_reports_reverted() {
    let step = UndoStep::Restore { backup: "/bk/5/a".to_string(), target: "/repo/a".to_string() };
    match undo_report(step, UndoIo::Done) {
        UndoReport::Reverted { target } => assert_eq!(target, "/repo/a"),
        _ => panic!("expected a revert"),
    }
}
