use vstd::prelude::*;
use vstd::string::*;

use crate::diff::{diff_header, grouped_changes, rendered, unified_diff, DIFF_CONTEXT_LINES};
use crate::edits::{apply_edit, edited, known_op, Edit, EditError};
use crate::paths::{
    backup_file_of, backup_path, is_write_blocked, target_from_backup, target_of_backup,
    write_blocked, PathError,
};

verus! {

/// An edit dry-run against the file's current content, waiting for review.
pub struct PreparedEdit {
    pub path: String,
    pub abs_path: String,
    pub diff: String,
    pub rationale: Option<String>,
    pub new_contents: String,
}

/// What preparing one edit for review gave.
pub enum Preparation {
    Ready(PreparedEdit),
    /// The path is absolute or starts with `.`.
    Blocked,
    /// The path resolves outside the repository.
    Escaped,
    /// The edit does not apply to the current content.
    Failed(EditError),
    /// The edit leaves the content as it is: nothing to write or back up.
    NoChange,
}

/// The text an edit yields on `old`, or `None` where it does not apply.
pub open spec fn edit_outcome(old: Seq<char>, e: Edit) -> Option<Seq<char>> {
    if known_op(e.op@) {
        edited(old, e.op@, e.anchor@, e.snippet@, e.limit as nat)
    } else {
        None
    }
}

/// Dry-runs `e` against the file's current content (`None`: the file does
/// not exist and counts as empty). `resolved` is the edit's path resolved
/// inside the repository.
pub fn prepare_edit(e: &Edit, resolved: Result<String, PathError>, current: Option<String>) -> (r:
    Preparation)
    ensures
        write_blocked(e.path@) ==> r is Blocked,
        !write_blocked(e.path@) && resolved is Err ==> r is Escaped,
        !write_blocked(e.path@) && resolved is Ok ==> {
            let old = match current {
                Some(c) => c@,
                None => Seq::<char>::empty(),
            };
            match edit_outcome(old, *e) {
                None => r matches Preparation::Failed(err) && if known_op(e.op@) {
                    err == EditError::AnchorNotFound
                } else {
                    err == EditError::UnsupportedOp { op: e.op }
                },
                Some(new) => if new == old {
                    r is NoChange
                } else {
                    r matches Preparation::Ready(p) && p.path@ == e.path@ && p.abs_path
                        == resolved->Ok_0 && p.new_contents@ == new && p.rationale == e.rationale
                        && p.diff@ == diff_header(e.path@) + rendered(
                        grouped_changes(old, new, DIFF_CONTEXT_LINES as nat),
                    )
                },
            }
        },
{
    if is_write_blocked(e.path.as_str()) {
        return Preparation::Blocked;
    }
    let abs = match resolved {
        Ok(a) => a,
        Err(_) => {
            return Preparation::Escaped;
        },
    };
    let old = match current {
        Some(c) => c,
        None => String::new(),
    };
    match apply_edit(old.as_str(), e) {
        Ok(new) => {
            if new == old {
                Preparation::NoChange
            } else {
                let diff = unified_diff(old.as_str(), new.as_str(), e.path.as_str());
                Preparation::Ready(
                    PreparedEdit {
                        path: e.path.clone(),
                        abs_path: abs,
                        diff,
                        rationale: e.rationale.clone(),
                        new_contents: new,
                    },
                )
            }
        },
        Err(err) => Preparation::Failed(err),
    }
}

/// An active review: the prepared edits and the one under review.
pub struct ReviewState {
    pub edits: Vec<PreparedEdit>,
    pub index: usize,
    pub backup_root: String,
}

impl ReviewState {
    /// The review is on one of its edits.
    pub open spec fn wf(&self) -> bool {
        self.index < self.edits@.len()
    }

    /// The edit under review.
    pub fn current_edit(&self) -> (r: Option<&PreparedEdit>)
        ensures
            self.index < self.edits@.len() ==> r == Some(&self.edits@[self.index as int]),
            self.index >= self.edits@.len() ==> r is None,
    {
        if self.index < self.edits.len() {
            Some(&self.edits[self.index])
        } else {
            None
        }
    }
}

/// The write that applying the edit under review performs: back up
/// `target` to `backup_file` if it exists, then put `contents` in its place.
pub struct WritePlan {
    pub target: String,
    pub backup_file: String,
    pub contents: String,
}

/// State that outlives single reviews: the review in progress, the undo
/// stack of backup files, and whether a turn is still running.
pub struct Session {
    pub review: Option<ReviewState>,
    pub undo_stack: Vec<String>,
    pub awaiting_response: bool,
}

impl Session {
    /// A session with no review, nothing to undo and no turn running.
    pub fn new() -> (r: Session)
        ensures
            r.review is None,
            r.undo_stack@.len() == 0,
            !r.awaiting_response,
            r.wf(),
    {
        Session { review: None, undo_stack: Vec::new(), awaiting_response: false }
    }

    /// A review, while there is one, is on one of its edits.
    pub open spec fn wf(&self) -> bool {
        self.review matches Some(rv) ==> rv.wf()
    }

    /// Starts a turn unless one is running; `false` means the request must wait.
    pub fn begin_turn(&mut self) -> (r: bool)
        ensures
            r == !old(self).awaiting_response,
            final(self).awaiting_response,
            final(self).review == old(self).review,
            final(self).undo_stack == old(self).undo_stack,
    {
        if self.awaiting_response {
            false
        } else {
            self.awaiting_response = true;
            true
        }
    }

    /// Marks the running turn as finished.
    pub fn finish_turn(&mut self)
        ensures
            !final(self).awaiting_response,
            final(self).review == old(self).review,
            final(self).undo_stack == old(self).undo_stack,
    {
        self.awaiting_response = false;
    }

    /// Starts reviewing the edits that preparation left ready. With none,
    /// no review starts and the result is `false`.
    pub fn begin_review(&mut self, prepared: Vec<Preparation>, backup_root: String) -> (r: bool)
        ensures
            final(self).undo_stack == old(self).undo_stack,
            final(self).awaiting_response == old(self).awaiting_response,
            r == exists|i: int| 0 <= i < prepared@.len() && prepared@[i] is Ready,
            r ==> (final(self).review matches Some(rv) && rv.index == 0 && rv.backup_root
                == backup_root && rv.edits@ == ready_edits(prepared@)),
            !r ==> final(self).review == old(self).review,
            old(self).wf() ==> final(self).wf(),
    {
        let ghost all = prepared@;
        let mut edits: Vec<PreparedEdit> = Vec::new();
        let mut rest = prepared;
        assert(all.skip(0) =~= all);
        while rest.len() > 0
            invariant
                rest@.len() <= all.len(),
                rest@ == all.skip(all.len() - rest@.len()),
                edits@ == ready_edits(all.take(all.len() - rest@.len())),
                edits@.len() == 0 <==> forall|j: int|
                    0 <= j < all.len() - rest@.len() ==> !(all[j] is Ready),
            decreases rest.len(),
        {
            let ghost k = all.len() - rest@.len();
            assert(all.take(k + 1).drop_last() =~= all.take(k));
            assert(all.take(k + 1).last() == all[k]);
            assert(rest@[0] == all[k]);
            let p = rest.remove(0);
            assert(rest@ =~= all.skip(k + 1));
            match p {
                Preparation::Ready(x) => {
                    edits.push(x);
                },
                _ => {},
            }
        }
        assert(all.take(all.len() as int) =~= all);
        if edits.len() == 0 {
            return false;
        }
        self.review = Some(ReviewState { edits, index: 0, backup_root });
        true
    }
}

impl Session {
    /// The review moves past its current edit; past the last one it ends.
    fn advance(&mut self)
        requires
            old(self).wf(),
        ensures
            final(self).wf(),
            final(self).undo_stack == old(self).undo_stack,
            final(self).awaiting_response == old(self).awaiting_response,
            match old(self).review {
                Some(rv) => if rv.index + 1 < rv.edits@.len() {
                    final(self).review matches Some(nr) && nr.index == rv.index + 1 && nr.edits
                        == rv.edits && nr.backup_root == rv.backup_root
                } else {
                    final(self).review is None
                },
                None => final(self).review is None,
            },
    {
        let current = self.review.take();
        match current {
            Some(mut rv) => {
                if rv.index < rv.edits.len() - 1 {
                    rv.index = rv.index + 1;
                    self.review = Some(rv);
                }
            },
            None => {},
        }
    }

    /// The write that applying the edit under review performs; `None`
    /// without a review, or where the edit's file is not inside
    /// `canonical_root`.
    pub fn current_write(&self, canonical_root: &str) -> (r: Option<WritePlan>)
        requires
            self.wf(),
        ensures
            match self.review {
                Some(rv) => {
                    let e = rv.edits@[rv.index as int];
                    match backup_file_of(rv.backup_root@, e.abs_path@, canonical_root@) {
                        Some(b) => r matches Some(w) && w.target@ == e.abs_path@ && w.backup_file@
                            == b && w.contents@ == e.new_contents@,
                        None => r is None,
                    }
                },
                None => r is None,
            },
    {
        match &self.review {
            Some(rv) => {
                let e = &rv.edits[rv.index];
                match backup_path(rv.backup_root.as_str(), e.abs_path.as_str(), canonical_root) {
                    Some(b) => Some(
                        WritePlan {
                            target: e.abs_path.clone(),
                            backup_file: b,
                            contents: e.new_contents.clone(),
                        },
                    ),
                    None => None,
                }
            },
            None => None,
        }
    }

    /// The write of the current edit succeeded: its backup file goes on
    /// the undo stack and the review moves on.
    pub fn applied(&mut self, backup_file: String)
        requires
            old(self).wf(),
        ensures
            final(self).wf(),
            final(self).undo_stack@ == old(self).undo_stack@.push(backup_file),
            final(self).awaiting_response == old(self).awaiting_response,
            match old(self).review {
                Some(rv) => if rv.index + 1 < rv.edits@.len() {
                    final(self).review matches Some(nr) && nr.index == rv.index + 1 && nr.edits
                        == rv.edits && nr.backup_root == rv.backup_root
                } else {
                    final(self).review is None
                },
                None => final(self).review is None,
            },
    {
        self.undo_stack.push(backup_file);
        self.advance();
    }

    /// Skips the edit under review without writing.
    pub fn skip_current(&mut self)
        requires
            old(self).wf(),
        ensures
            final(self).wf(),
            final(self).undo_stack == old(self).undo_stack,
            final(self).awaiting_response == old(self).awaiting_response,
            match old(self).review {
                Some(rv) => if rv.index + 1 < rv.edits@.len() {
                    final(self).review matches Some(nr) && nr.index == rv.index + 1 && nr.edits
                        == rv.edits && nr.backup_root == rv.backup_root
                } else {
                    final(self).review is None
                },
                None => final(self).review is None,
            },
    {
        self.advance();
    }

    /// Drops the remaining edits and ends the review.
    pub fn cancel_review(&mut self)
        ensures
            final(self).review is None,
            final(self).undo_stack == old(self).undo_stack,
            final(self).awaiting_response == old(self).awaiting_response,
            final(self).wf(),
    {
        self.review = None;
    }

    /// Takes the most recent backup record off the undo stack.
    pub fn undo_last(&mut self) -> (r: Option<String>)
        ensures
            final(self).review == old(self).review,
            final(self).awaiting_response == old(self).awaiting_response,
            old(self).undo_stack@.len() == 0 ==> r is None && final(self).undo_stack@
                == old(self).undo_stack@,
            old(self).undo_stack@.len() > 0 ==> r == Some(old(self).undo_stack@.last())
                && final(self).undo_stack@ == old(self).undo_stack@.drop_last(),
    {
        self.undo_stack.pop()
    }
}

/// What undoing one backup record does.
pub enum UndoStep {
    /// The backup's target cannot be worked out.
    UnknownTarget,
    /// Copy the backup over the target.
    Restore { backup: String, target: String },
    /// The edit created the file: remove it.
    Remove { target: String },
}

/// How the file operation of an undo went.
pub enum UndoIo {
    Done,
    /// The file to remove was already gone.
    NotFound,
    Failed { error: String },
}

/// What undoing `backup` does: restore it where it exists, else remove the
/// target it maps to (see `target_of_backup`).
pub fn undo_step(repo_root: &str, backups_dir: &str, backup: &str, backup_exists: bool) -> (r: UndoStep)
    ensures
        match target_of_backup(repo_root@, backups_dir@, backup@) {
            None => r is UnknownTarget,
            Some(t) => if backup_exists {
                r matches UndoStep::Restore { backup: b, target } && b@ == backup@ && target@ == t
            } else {
                r matches UndoStep::Remove { target } && target@ == t
            },
        },
{
    match target_from_backup(repo_root, backups_dir, backup) {
        None => UndoStep::UnknownTarget,
        Some(t) => if backup_exists {
            UndoStep::Restore { backup: String::from_str(backup), target: t }
        } else {
            UndoStep::Remove { target: t }
        },
    }
}

/// How an undo went, for the user.
pub enum UndoReport {
    Reverted { target: String },
    Removed { target: String },
    /// The file the edit had created is already gone.
    NothingToUndo { target: String },
    Failed { error: String },
    UnknownTarget,
}

/// The report of an undo step whose file operation ended as `io`. Removing a
/// file that is already gone is reported as nothing to undo, not as an error.
pub fn undo_report(step: UndoStep, io: UndoIo) -> (r: UndoReport)
    ensures
        match (step, io) {
            (UndoStep::UnknownTarget, _) => r is UnknownTarget,
            (_, UndoIo::Failed { error }) => r == UndoReport::Failed { error },
            (UndoStep::Restore { target, .. }, _) => r == UndoReport::Reverted { target },
            (UndoStep::Remove { target }, UndoIo::Done) => r == UndoReport::Removed { target },
            (UndoStep::Remove { target }, UndoIo::NotFound) => r == UndoReport::NothingToUndo {
                target,
            },
        },
{
    match (step, io) {
        (UndoStep::UnknownTarget, _) => UndoReport::UnknownTarget,
        (_, UndoIo::Failed { error }) => UndoReport::Failed { error },
        (UndoStep::Restore { target, .. }, _) => UndoReport::Reverted { target },
        (UndoStep::Remove { target }, UndoIo::Done) => UndoReport::Removed { target },
        (UndoStep::Remove { target }, UndoIo::NotFound) => UndoReport::NothingToUndo { target },
    }
}

/// The prepared edits among the preparations, in order.
pub open spec fn ready_edits(ps: Seq<Preparation>) -> Seq<PreparedEdit>
    decreases ps.len(),
{
    if ps.len() == 0 {
        Seq::empty()
    } else {
        let rest = ready_edits(ps.drop_last());
        match ps.last() {
            Preparation::Ready(p) => rest.push(p),
            _ => rest,
        }
    }
}

} // verus!
