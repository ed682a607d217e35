//! The order of a workspace edit on a remote machine: every original is read before
//! anything is written, and if a write fails, what was written is put back, the last
//! one first.
use vstd::prelude::*;

use super::transaction::{
    failed_overwrite_restores_files, lemma_ran_concat, overwrite_steps, ran, write_back_steps,
    FileStep, Files,
};
use super::{AuthorityError, EditConflict};

verus! {

/// How far an edit has come.
#[derive(Clone, Copy, Debug, PartialEq, Eq, Structural)]
pub enum RemoteEditPhase {
    Reading,
    Writing,
    PuttingBack,
    Ended,
}

/// A workspace edit that is being made on a remote machine: the paths of its changes,
/// the originals that were read, the change that is next, and what went wrong.
#[derive(Debug, PartialEq, Eq)]
pub struct RemoteEditTask {
    pub paths: Vec<String>,
    pub originals: Vec<Vec<u8>>,
    pub next: usize,
    /// The change that could not be written, and why.
    pub failed: usize,
    pub error: String,
    pub rollback_failures: Vec<(String, String)>,
    pub phase: RemoteEditPhase,
}

/// What became of the last step.
#[derive(Debug, PartialEq, Eq)]
pub enum RemoteEditNews {
    Original(Vec<u8>),
    Done,
    Failed(AuthorityError),
}

/// What is to be done next.
#[derive(Debug, PartialEq, Eq)]
#[allow(inconsistent_fields)]
pub enum RemoteEditStep {
    /// Read the original of a change.
    Read { change: usize },
    /// Write the content of a change.
    Write { change: usize },
    /// Write the original of a change back.
    PutBack { change: usize },
    Finish { result: Result<(), AuthorityError> },
    Wait,
}

/// The error of an edit that could not be written.
pub open spec fn is_write_failure(task: RemoteEditTask, error: AuthorityError) -> bool {
    error matches AuthorityError::LspEditConflict(
        EditConflict::RemoteWrite { path, error: e, rollback_failures },
    ) && path == task.paths@[task.failed as int] && e == task.error && rollback_failures@
        == task.rollback_failures@
}

/// Whether an edit is as before but for how far it has come.
pub open spec fn remote_moved(
    before: RemoteEditTask,
    after: RemoteEditTask,
    phase: RemoteEditPhase,
    next: int,
) -> bool {
    after == RemoteEditTask { phase, next: next as usize, ..before }
}

/// How an edit goes on.
pub open spec fn remote_edit_stepped(
    before: RemoteEditTask,
    news: RemoteEditNews,
    after: RemoteEditTask,
    step: RemoteEditStep,
) -> bool {
    let n = before.paths@.len() as int;
    let k = before.next as int;
    match (before.phase, news) {
        (RemoteEditPhase::Reading, RemoteEditNews::Original(original)) => {
            &&& after == RemoteEditTask {
                originals: after.originals,
                phase: after.phase,
                next: after.next,
                ..before
            }
            &&& after.originals@ == before.originals@.push(original)
            &&& if k + 1 < n {
                after.phase == RemoteEditPhase::Reading && after.next == k + 1 && step
                    == (RemoteEditStep::Read { change: after.next })
            } else {
                after.phase == RemoteEditPhase::Writing && after.next == 0 && step
                    == (RemoteEditStep::Write { change: 0 })
            }
        },
        (RemoteEditPhase::Reading, RemoteEditNews::Failed(e)) => {
            &&& remote_moved(before, after, RemoteEditPhase::Ended, k)
            &&& step matches RemoteEditStep::Finish { result } && (result matches Err(
                AuthorityError::LspEditConflict(EditConflict::NotStaged { path, error }),
            ) && path == before.paths@[k] && error@ == super::error_text(e))
        },
        (RemoteEditPhase::Writing, RemoteEditNews::Done) => if k + 1 < n {
            remote_moved(before, after, RemoteEditPhase::Writing, k + 1) && step
                == (RemoteEditStep::Write { change: after.next })
        } else {
            remote_moved(before, after, RemoteEditPhase::Ended, k) && step
                == (RemoteEditStep::Finish { result: Ok(()) })
        },
        (RemoteEditPhase::Writing, RemoteEditNews::Failed(e)) => {
            &&& after == RemoteEditTask {
                failed: before.next,
                error: after.error,
                phase: after.phase,
                next: after.next,
                ..before
            }
            &&& after.error@ == super::error_text(e)
            &&& if k > 0 {
                after.phase == RemoteEditPhase::PuttingBack && after.next == k - 1 && step
                    == (RemoteEditStep::PutBack { change: after.next })
            } else {
                after.phase == RemoteEditPhase::Ended && after.next == 0 && (
                step matches RemoteEditStep::Finish { result } && (result matches Err(error)
                    && is_write_failure(after, error)))
            }
        },
        (RemoteEditPhase::PuttingBack, RemoteEditNews::Original(_)) => after == before && step
            == RemoteEditStep::Wait,
        (RemoteEditPhase::PuttingBack, news) => {
            &&& after == RemoteEditTask {
                rollback_failures: after.rollback_failures,
                phase: after.phase,
                next: after.next,
                ..before
            }
            &&& match news {
                RemoteEditNews::Failed(e) => {
                    &&& after.rollback_failures@.len() == before.rollback_failures@.len() + 1
                    &&& after.rollback_failures@.drop_last() == before.rollback_failures@
                    &&& after.rollback_failures@.last().0 == before.paths@[k]
                    &&& after.rollback_failures@.last().1@ == super::error_text(e)
                },
                _ => after.rollback_failures == before.rollback_failures,
            }
            &&& if k > 0 {
                after.phase == RemoteEditPhase::PuttingBack && after.next == k - 1 && step
                    == (RemoteEditStep::PutBack { change: after.next })
            } else {
                after.phase == RemoteEditPhase::Ended && after.next == 0 && (
                step matches RemoteEditStep::Finish { result } && (result matches Err(error)
                    && is_write_failure(after, error)))
            }
        },
        _ => after == before && step == RemoteEditStep::Wait,
    }
}

impl RemoteEditTask {
    pub open spec fn wf(&self) -> bool {
        &&& self.phase != RemoteEditPhase::Ended ==> self.next < self.paths@.len()
        &&& self.failed < self.paths@.len() || self.failed == 0
        &&& self.phase == RemoteEditPhase::Reading ==> self.originals@.len() == self.next
        &&& self.phase == RemoteEditPhase::Writing || self.phase == RemoteEditPhase::PuttingBack
            ==> self.originals@.len() == self.paths@.len()
        &&& self.phase == RemoteEditPhase::PuttingBack ==> self.next < self.failed
            && self.failed < self.paths@.len()
        &&& self.phase == RemoteEditPhase::Reading || self.phase == RemoteEditPhase::Writing
            ==> self.rollback_failures@.len() == 0
    }

    /// Begins an edit of changes with these paths.
    pub fn begin(paths: Vec<String>) -> (r: (Self, RemoteEditStep))
        ensures
            r.0.wf(),
            r.0.paths == paths,
            r.0.originals@.len() == 0,
            r.0.next == 0,
            r.0.phase == if paths@.len() == 0 {
                RemoteEditPhase::Ended
            } else {
                RemoteEditPhase::Reading
            },
            r.1 == if paths@.len() == 0 {
                RemoteEditStep::Finish { result: Ok(()) }
            } else {
                RemoteEditStep::Read { change: 0 }
            },
    {
        let empty = paths.len() == 0;
        let task = RemoteEditTask {
            paths,
            originals: Vec::new(),
            next: 0,
            failed: 0,
            error: String::new(),
            rollback_failures: Vec::new(),
            phase: if empty {
                RemoteEditPhase::Ended
            } else {
                RemoteEditPhase::Reading
            },
        };
        let step = if empty {
            RemoteEditStep::Finish { result: Ok(()) }
        } else {
            RemoteEditStep::Read { change: 0 }
        };
        (task, step)
    }

    fn write_failure(&self) -> (step: RemoteEditStep)
        requires
            self.failed < self.paths@.len(),
        ensures
            step matches RemoteEditStep::Finish { result } && (result matches Err(error)
                && is_write_failure(*self, error)),
    {
        let mut rollback_failures: Vec<(String, String)> = Vec::new();
        for i in 0..self.rollback_failures.len()
            invariant
                rollback_failures@ == self.rollback_failures@.take(i as int),
        {
            rollback_failures.push(
                (self.rollback_failures[i].0.clone(), self.rollback_failures[i].1.clone()),
            );
            assert(self.rollback_failures@.take(i + 1) =~= self.rollback_failures@.take(
                i as int,
            ).push(self.rollback_failures@[i as int]));
        }
        assert(self.rollback_failures@.take(self.rollback_failures@.len() as int)
            =~= self.rollback_failures@);
        RemoteEditStep::Finish {
            result: Err(
                AuthorityError::LspEditConflict(
                    EditConflict::RemoteWrite {
                        path: self.paths[self.failed].clone(),
                        error: self.error.clone(),
                        rollback_failures,
                    },
                ),
            ),
        }
    }

    /// What comes after a change was put back or could not be.
    fn put_back_next(&mut self) -> (step: RemoteEditStep)
        requires
            old(self).failed < old(self).paths@.len(),
        ensures
            *final(self) == (RemoteEditTask {
                phase: final(self).phase,
                next: final(self).next,
                ..*old(self)
            }),
            if old(self).next > 0 {
                final(self).phase == RemoteEditPhase::PuttingBack && final(self).next == old(
                    self,
                ).next - 1 && step == (RemoteEditStep::PutBack { change: final(self).next })
            } else {
                final(self).phase == RemoteEditPhase::Ended && final(self).next == 0 && (
                step matches RemoteEditStep::Finish { result } && (result matches Err(error)
                    && is_write_failure(*final(self), error)))
            },
    {
        if self.next > 0 {
            self.next -= 1;
            self.phase = RemoteEditPhase::PuttingBack;
            RemoteEditStep::PutBack { change: self.next }
        } else {
            self.phase = RemoteEditPhase::Ended;
            self.write_failure()
        }
    }

    /// Takes the outcome of the last step, and says what is to be done next.
    pub fn step(&mut self, news: RemoteEditNews) -> (step: RemoteEditStep)
        requires
            old(self).wf(),
        ensures
            final(self).wf(),
            remote_edit_stepped(*old(self), news, *final(self), step),
    {
        let n: usize = self.paths.len();
        match self.phase {
            RemoteEditPhase::Reading => match news {
                RemoteEditNews::Original(original) => {
                    self.originals.push(original);
                    if self.next < n - 1 {
                        self.next += 1;
                        RemoteEditStep::Read { change: self.next }
                    } else {
                        self.phase = RemoteEditPhase::Writing;
                        self.next = 0;
                        RemoteEditStep::Write { change: 0 }
                    }
                },
                RemoteEditNews::Failed(e) => {
                    self.phase = RemoteEditPhase::Ended;
                    RemoteEditStep::Finish {
                        result: Err(
                            AuthorityError::LspEditConflict(
                                EditConflict::NotStaged {
                                    path: self.paths[self.next].clone(),
                                    error: e.text(),
                                },
                            ),
                        ),
                    }
                },
                RemoteEditNews::Done => RemoteEditStep::Wait,
            },
            RemoteEditPhase::Writing => match news {
                RemoteEditNews::Done => {
                    if self.next < n - 1 {
                        self.next += 1;
                        RemoteEditStep::Write { change: self.next }
                    } else {
                        self.phase = RemoteEditPhase::Ended;
                        RemoteEditStep::Finish { result: Ok(()) }
                    }
                },
                RemoteEditNews::Failed(e) => {
                    self.failed = self.next;
                    self.error = e.text();
                    self.put_back_next()
                },
                RemoteEditNews::Original(_) => RemoteEditStep::Wait,
            },
            RemoteEditPhase::PuttingBack => match news {
                RemoteEditNews::Done => self.put_back_next(),
                RemoteEditNews::Failed(e) => {
                    let ghost before = self.rollback_failures@;
                    let path = self.paths[self.next].clone();
                    self.rollback_failures.push((path, e.text()));
                    assert(self.rollback_failures@.drop_last() =~= before);
                    self.put_back_next()
                },
                RemoteEditNews::Original(_) => RemoteEditStep::Wait,
            },
            RemoteEditPhase::Ended => RemoteEditStep::Wait,
        }
    }
}

/// The steps that put the originals from the `k`-th down to the `j`-th back.
pub open spec fn put_back_steps(
    targets: Seq<Seq<char>>,
    originals: Seq<Seq<u8>>,
    k: int,
    j: int,
) -> Seq<FileStep>
    decreases k - j,
{
    if j >= k {
        Seq::empty()
    } else {
        put_back_steps(targets, originals, k, j + 1) + seq![
            FileStep::Write { path: targets[j], content: originals[j] },
        ]
    }
}

proof fn lemma_put_back(targets: Seq<Seq<char>>, originals: Seq<Seq<u8>>, k: int, j: int)
    requires
        0 <= j <= k,
    ensures
        put_back_steps(targets, originals, k, j) + write_back_steps(targets, originals, j)
            == write_back_steps(targets, originals, k),
    decreases k - j,
{
    if j < k {
        lemma_put_back(targets, originals, k, j + 1);
        let one = seq![FileStep::Write { path: targets[j], content: originals[j] }];
        assert(put_back_steps(targets, originals, k, j + 1) + (one + write_back_steps(
            targets,
            originals,
            j,
        )) =~= put_back_steps(targets, originals, k, j + 1) + one + write_back_steps(
            targets,
            originals,
            j,
        ));
    } else {
        assert(put_back_steps(targets, originals, k, j) + write_back_steps(targets, originals, j)
            =~= write_back_steps(targets, originals, j));
    }
}

/// The steps on the files that an edit has taken so far, given the places that its
/// paths name.
pub open spec fn remote_taken(
    task: RemoteEditTask,
    targets: Seq<Seq<char>>,
    contents: Seq<Seq<u8>>,
) -> Seq<FileStep> {
    let originals = task.originals@.map_values(|o: Vec<u8>| o@);
    match task.phase {
        RemoteEditPhase::Reading => Seq::empty(),
        RemoteEditPhase::Writing => overwrite_steps(targets, contents, task.next as int),
        RemoteEditPhase::PuttingBack => overwrite_steps(targets, contents, task.failed as int)
            + put_back_steps(targets, originals, task.failed as int, task.next + 1),
        RemoteEditPhase::Ended => Seq::empty(),
    }
}

/// A remote edit is made wholly or not at all, unless putting something back fails:
/// whenever it ends after a failure with nothing that could not be put back, the files
/// are those from before. The originals are what was read; a step that fails changes
/// no file.
pub proof fn remote_edits_end_whole_or_not_at_all(
    files: Files,
    targets: Seq<Seq<char>>,
    contents: Seq<Seq<u8>>,
    before: RemoteEditTask,
    news: RemoteEditNews,
    after: RemoteEditTask,
    step: RemoteEditStep,
)
    requires
        before.wf(),
        remote_edit_stepped(before, news, after, step),
        step is Finish,
        targets.len() == before.paths@.len(),
        contents.len() == before.paths@.len(),
        forall|i: int, j: int|
            0 <= i < j < targets.len() ==> #[trigger] targets[i] != #[trigger] targets[j],
        before.phase != RemoteEditPhase::Reading ==> forall|j: int|
            0 <= j < targets.len() ==> super::transaction::at(files, #[trigger] targets[j]) == Some(
                before.originals@[j]@,
            ),
    ensures
        before.phase == RemoteEditPhase::Reading ==> step->result is Err && ran(
            files,
            remote_taken(before, targets, contents),
        ) == files,
        before.phase == RemoteEditPhase::Writing && news is Failed ==> step->result is Err && ran(
            files,
            remote_taken(before, targets, contents),
        ) == files,
        before.phase == RemoteEditPhase::Writing && !(news is Failed) ==> step->result is Ok && (
        remote_taken(before, targets, contents) + seq![
            FileStep::Write {
                path: targets[before.next as int],
                content: contents[before.next as int],
            },
        ]) == overwrite_steps(targets, contents, targets.len() as int),
        before.phase == RemoteEditPhase::PuttingBack ==> step->result is Err,
        before.phase == RemoteEditPhase::PuttingBack && after.rollback_failures@.len() == 0 ==> ran(
            files,
            remote_taken(before, targets, contents) + seq![
                FileStep::Write {
                    path: targets[before.next as int],
                    content: before.originals@[before.next as int]@,
                },
            ],
        ) == files,
{
    let originals = before.originals@.map_values(|o: Vec<u8>| o@);
    if before.phase == RemoteEditPhase::PuttingBack {
        let k = before.failed as int;
        failed_overwrite_restores_files(files, targets, contents, originals, k);
        lemma_put_back(targets, originals, k, 0);
        let a = overwrite_steps(targets, contents, k);
        let b = put_back_steps(targets, originals, k, 1);
        let one = seq![FileStep::Write { path: targets[0], content: originals[0] }];
        assert(put_back_steps(targets, originals, k, 0) == b + one);
        assert(b + one + write_back_steps(targets, originals, 0) =~= b + one);
        lemma_ran_concat(files, a, b + one);
        assert(a + b + one =~= a + (b + one));
    }
}

/// The files of an edit are read and written in turn. Where one cannot be written, those
/// written before it are put back, the last one first, and whatever cannot be put back is
/// named. What was read is kept unchanged all the while.
pub proof fn remote_edits_go_in_turn(
    before: RemoteEditTask,
    news: RemoteEditNews,
    after: RemoteEditTask,
    step: RemoteEditStep,
)
    requires
        before.wf(),
        remote_edit_stepped(before, news, after, step),
    ensures
        after.paths == before.paths,
        step matches RemoteEditStep::Read { change } ==> change == before.next + 1 && change
            < before.paths@.len(),
        step matches RemoteEditStep::Write { change } ==> if before.phase
            == RemoteEditPhase::Reading {
            change == 0 && before.next + 1 >= before.paths@.len()
        } else {
            change == before.next + 1 && change < before.paths@.len()
        },
        step matches RemoteEditStep::PutBack { change } ==> change == before.next - 1,
        before.phase == RemoteEditPhase::Reading ==> (news matches RemoteEditNews::Original(text)
            ==> after.originals@.len() == before.originals@.len() + 1 && after.originals@.last()
            == text && after.originals@.drop_last() == before.originals@),
        before.phase != RemoteEditPhase::Reading ==> after.originals == before.originals,
        before.phase == RemoteEditPhase::Writing && news is Failed ==> after.failed == before.next
            && (before.next > 0 ==> step is PutBack),
        before.phase == RemoteEditPhase::PuttingBack && news is Failed
            ==> after.rollback_failures@.len() == before.rollback_failures@.len() + 1
            && after.rollback_failures@.last().0 == before.paths@[before.next as int],
        before.phase == RemoteEditPhase::PuttingBack && news is Done ==> after.rollback_failures
            == before.rollback_failures,
        before.phase == RemoteEditPhase::PuttingBack && step is Finish ==> before.next == 0,
{
    assert(before.paths@.len() == before.paths.len());
    if before.phase == RemoteEditPhase::Reading {
        if let RemoteEditNews::Original(text) = news {
            assert(after.originals@.drop_last() =~= before.originals@);
        }
    }
}

} // verus!
