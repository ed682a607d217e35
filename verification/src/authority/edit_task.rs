//! The order of a workspace edit on this machine: every content is staged, then every
//! original is set aside, then every content is put in place. What follows a failure
//! depends on how far the edit has come.
use vstd::prelude::*;

use super::transaction::{
    aside_steps, at, commit_steps, discard_staged, edit_is_all_or_nothing, edit_steps,
    edit_steps_make_progress, lemma_one_step, lemma_ran_concat, lemma_staged_only, originals_kept,
    places_of, ran, refused_edit_restores_files, replaced, roll_back, rollback_steps, separate,
    stage_steps, stepped, steps_of, tidy_steps, tidy_up, undo_replacements, undo_steps, FileAction,
    FileStep, Files, Places, StagedLspReplacement,
};
use super::{AuthorityError, EditConflict, IoFault};

verus! {

/// How far an edit has come.
#[derive(Clone, Copy, Debug, PartialEq, Eq, Structural)]
pub enum EditPhase {
    Staging,
    /// Looking whether there is an original.
    Looking,
    SettingAside,
    Committing,
    Ended,
}

/// A workspace edit that is being made: its replacements, where their originals are
/// set aside, and the replacement that is next.
#[derive(Debug, PartialEq, Eq)]
pub struct EditTask {
    pub staged: Vec<StagedLspReplacement>,
    pub backups: Vec<String>,
    pub next: usize,
    pub phase: EditPhase,
}

/// What became of the last step.
#[derive(Debug, PartialEq, Eq)]
pub enum EditNews {
    Done,
    /// Whether a file is there.
    Present(bool),
    Failed(String),
}

/// What is to be done next.
#[derive(Debug, PartialEq, Eq)]
#[allow(inconsistent_fields)]
pub enum EditStep {
    /// Write the content of a change to a new file.
    Write { path: String, change: usize },
    Look { path: String },
    Rename { from: String, to: String },
    /// Do what is left to be done, whatever becomes of it, and end.
    Finish { cleanup: Vec<FileAction>, result: Result<(), AuthorityError> },
    Wait,
}

/// The phase and the replacement that an edit of `n` replacements goes on with.
pub open spec fn edit_place(phase: EditPhase, next: int, n: int) -> (EditPhase, int) {
    if n == 0 {
        (EditPhase::Ended, 0)
    } else if next < n {
        (phase, next)
    } else {
        match phase {
            EditPhase::Staging => (EditPhase::Looking, 0),
            EditPhase::Looking => (EditPhase::Committing, 0),
            _ => (EditPhase::Ended, next),
        }
    }
}

/// What an edit asks for in its phase. One that has ended well is tidied up.
pub open spec fn edit_asks(task: EditTask, step: EditStep) -> bool {
    let one = task.staged@[task.next as int];
    match task.phase {
        EditPhase::Staging => step == (EditStep::Write { path: one.temp, change: task.next }),
        EditPhase::Looking => step == (EditStep::Look { path: one.target }),
        EditPhase::SettingAside => step == (EditStep::Rename {
            from: one.target,
            to: task.backups@[task.next as int],
        }),
        EditPhase::Committing => step == (EditStep::Rename { from: one.temp, to: one.target }),
        EditPhase::Ended => step matches EditStep::Finish { cleanup, result } && steps_of(cleanup@)
            == tidy_steps(places_of(task.staged@), 0) && result == Ok::<(), AuthorityError>(()),
    }
}

/// Whether an edit has gone on with its replacements as they are.
pub open spec fn edit_moved(before: EditTask, phase: EditPhase, next: int, after: EditTask) -> bool {
    &&& after.backups == before.backups
    &&& after.staged@ == before.staged@
    &&& (after.phase, after.next as int) == edit_place(phase, next, before.staged@.len() as int)
}

/// Whether an edit has ended with an error and these steps left to be done.
pub open spec fn edit_failed(
    before: EditTask,
    after: EditTask,
    step: EditStep,
    left: Seq<FileStep>,
    error: AuthorityError,
) -> bool {
    &&& after == EditTask { phase: EditPhase::Ended, ..before }
    &&& step matches EditStep::Finish { cleanup, result } && steps_of(cleanup@) == left && result
        == Err::<(), AuthorityError>(error)
}

/// The steps that remove the first `n` temporary files.
pub open spec fn discard_steps(places: Seq<Places>, n: int) -> Seq<FileStep> {
    Seq::new(n as nat, |i: int| FileStep::Remove { path: places[i].temp })
}

/// How an edit goes on. A failure while contents are staged removes those that were
/// staged; one while originals are set aside puts them back; one while contents are put
/// in place takes them out again and puts the originals back.
pub open spec fn edit_stepped(
    before: EditTask,
    news: EditNews,
    after: EditTask,
    step: EditStep,
) -> bool {
    let places = places_of(before.staged@);
    let n = places.len() as int;
    match (before.phase, news) {
        (EditPhase::Staging, EditNews::Done) => edit_moved(
            before,
            EditPhase::Staging,
            before.next + 1,
            after,
        ) && edit_asks(after, step),
        (EditPhase::Staging, EditNews::Failed(error)) => edit_failed(
            before,
            after,
            step,
            discard_steps(places, before.next as int),
            AuthorityError::Io(IoFault::Other(error)),
        ),
        (EditPhase::Looking, EditNews::Present(present)) => if present {
            after == (EditTask { phase: EditPhase::SettingAside, ..before }) && edit_asks(
                after,
                step,
            )
        } else {
            edit_moved(before, EditPhase::Looking, before.next + 1, after) && edit_asks(after, step)
        },
        (EditPhase::SettingAside, EditNews::Done) => {
            let one = before.staged@[before.next as int];
            let kept = StagedLspReplacement {
                backup: Some(before.backups@[before.next as int]),
                ..one
            };
            &&& after.backups == before.backups
            &&& after.staged@ == before.staged@.update(before.next as int, kept)
            &&& (after.phase, after.next as int) == edit_place(
                EditPhase::Looking,
                before.next + 1,
                n,
            )
            &&& edit_asks(after, step)
        },
        (EditPhase::Looking, EditNews::Failed(error)) => edit_failed(
            before,
            after,
            step,
            undo_steps(places, n),
            AuthorityError::LspEditConflict(EditConflict::NotPreserved { error }),
        ),
        (EditPhase::SettingAside, EditNews::Failed(error)) => edit_failed(
            before,
            after,
            step,
            undo_steps(places, n),
            AuthorityError::LspEditConflict(EditConflict::NotPreserved { error }),
        ),
        (EditPhase::Committing, EditNews::Done) => edit_moved(
            before,
            EditPhase::Committing,
            before.next + 1,
            after,
        ) && edit_asks(after, step),
        (EditPhase::Committing, EditNews::Failed(error)) => edit_failed(
            before,
            after,
            step,
            rollback_steps(places, before.next as int),
            AuthorityError::LspEditConflict(
                EditConflict::NotCommitted {
                    path: before.staged@[before.next as int].target,
                    error,
                },
            ),
        ),
        _ => after == before && step == EditStep::Wait,
    }
}

impl EditTask {
    /// Whether there is a place to set each original aside, a replacement is next while
    /// the edit goes on, and the originals that were set aside are those before it.
    pub open spec fn wf(&self) -> bool {
        &&& self.backups@.len() == self.staged@.len()
        &&& self.phase != EditPhase::Ended ==> self.next < self.staged@.len()
        &&& self.phase == EditPhase::Staging ==> forall|i: int|
            0 <= i < self.staged@.len() ==> (#[trigger] self.staged@[i]).backup is None
        &&& self.phase == EditPhase::Looking || self.phase == EditPhase::SettingAside
            ==> forall|i: int|
            self.next <= i < self.staged@.len() ==> (#[trigger] self.staged@[i]).backup is None
    }

    /// Begins an edit.
    pub fn begin(staged: Vec<StagedLspReplacement>, backups: Vec<String>) -> (r: (
        EditTask,
        EditStep,
    ))
        requires
            backups@.len() == staged@.len(),
            forall|i: int| 0 <= i < staged@.len() ==> (#[trigger] staged@[i]).backup is None,
        ensures
            r.0.wf(),
            r.0.staged == staged,
            r.0.backups == backups,
            (r.0.phase, r.0.next as int) == edit_place(
                EditPhase::Staging,
                0,
                staged@.len() as int,
            ),
            edit_asks(r.0, r.1),
    {
        let mut task = EditTask { staged, backups, next: 0, phase: EditPhase::Staging };
        let step = task.go_on();
        (task, step)
    }

    /// Goes on with the replacement that is next, and says what to do.
    fn go_on(&mut self) -> (step: EditStep)
        requires
            old(self).backups@.len() == old(self).staged@.len(),
            old(self).next <= old(self).staged@.len(),
            old(self).phase != EditPhase::Ended,
            old(self).phase == EditPhase::SettingAside ==> old(self).next < old(self).staged@.len(),
        ensures
            final(self).staged == old(self).staged,
            final(self).backups == old(self).backups,
            (final(self).phase, final(self).next as int) == edit_place(
                old(self).phase,
                old(self).next as int,
                old(self).staged@.len() as int,
            ),
            edit_asks(*final(self), step),
    {
        let n: usize = self.staged.len();
        if n == 0 {
            self.phase = EditPhase::Ended;
            self.next = 0;
        } else if self.next >= n {
            match self.phase {
                EditPhase::Staging => {
                    self.phase = EditPhase::Looking;
                    self.next = 0;
                },
                EditPhase::Looking => {
                    self.phase = EditPhase::Committing;
                    self.next = 0;
                },
                _ => {
                    self.phase = EditPhase::Ended;
                },
            }
        }
        match self.phase {
            EditPhase::Staging => EditStep::Write {
                path: self.staged[self.next].temp.clone(),
                change: self.next,
            },
            EditPhase::Looking => EditStep::Look { path: self.staged[self.next].target.clone() },
            EditPhase::SettingAside => EditStep::Rename {
                from: self.staged[self.next].target.clone(),
                to: self.backups[self.next].clone(),
            },
            EditPhase::Committing => EditStep::Rename {
                from: self.staged[self.next].temp.clone(),
                to: self.staged[self.next].target.clone(),
            },
            EditPhase::Ended => EditStep::Finish { cleanup: tidy_up(&self.staged), result: Ok(()) },
        }
    }

    /// Takes the outcome of the last step, and says what is to be done next.
    pub fn step(&mut self, news: EditNews) -> (step: EditStep)
        requires
            old(self).wf(),
        ensures
            final(self).wf(),
            edit_stepped(*old(self), news, *final(self), step),
    {
        let n: usize = self.staged.len();
        assert(self.phase != EditPhase::Ended ==> self.next < n);
        match news {
            EditNews::Done => match self.phase {
                EditPhase::Staging | EditPhase::Committing => {
                    self.next += 1;
                    self.go_on()
                },
                EditPhase::SettingAside => {
                    let kept = StagedLspReplacement {
                        temp: self.staged[self.next].temp.clone(),
                        target: self.staged[self.next].target.clone(),
                        backup: Some(self.backups[self.next].clone()),
                    };
                    let k: usize = self.next;
                    self.staged.set(k, kept);
                    self.phase = EditPhase::Looking;
                    self.next = k + 1;
                    self.go_on()
                },
                _ => EditStep::Wait,
            },
            EditNews::Present(present) => match self.phase {
                EditPhase::Looking => {
                    if present {
                        self.phase = EditPhase::SettingAside;
                    } else {
                        self.next += 1;
                    }
                    self.go_on()
                },
                _ => EditStep::Wait,
            },
            EditNews::Failed(error) => match self.phase {
                EditPhase::Staging => {
                    let cleanup = discard_staged(&self.staged, self.next);
                    assert(steps_of(cleanup@) =~= discard_steps(
                        places_of(self.staged@),
                        self.next as int,
                    ));
                    self.phase = EditPhase::Ended;
                    EditStep::Finish { cleanup, result: Err(AuthorityError::Io(IoFault::Other(error))) }
                },
                EditPhase::Looking | EditPhase::SettingAside => {
                    let cleanup = undo_replacements(&self.staged);
                    self.phase = EditPhase::Ended;
                    EditStep::Finish {
                        cleanup,
                        result: Err(
                            AuthorityError::LspEditConflict(EditConflict::NotPreserved { error }),
                        ),
                    }
                },
                EditPhase::Committing => {
                    let cleanup = roll_back(&self.staged, self.next);
                    let path = self.staged[self.next].target.clone();
                    self.phase = EditPhase::Ended;
                    EditStep::Finish {
                        cleanup,
                        result: Err(
                            AuthorityError::LspEditConflict(
                                EditConflict::NotCommitted { path, error },
                            ),
                        ),
                    }
                },
                EditPhase::Ended => EditStep::Wait,
            },
        }
    }
}

/// The steps that an edit has taken so far.
pub open spec fn taken_steps(task: EditTask, contents: Seq<Seq<u8>>) -> Seq<FileStep> {
    let places = places_of(task.staged@);
    let n = places.len() as int;
    match task.phase {
        EditPhase::Staging => stage_steps(places, contents, task.next as int),
        EditPhase::Looking => stage_steps(places, contents, n) + aside_steps(
            places,
            task.next as int,
        ),
        EditPhase::SettingAside => stage_steps(places, contents, n) + aside_steps(
            places,
            task.next as int,
        ),
        EditPhase::Committing => edit_steps(places, contents, task.next as int),
        EditPhase::Ended => edit_steps(places, contents, n),
    }
}

/// The step on the files that an edit has asked for.
pub open spec fn asked_step(task: EditTask, contents: Seq<Seq<u8>>) -> Seq<FileStep> {
    let one = task.staged@[task.next as int];
    match task.phase {
        EditPhase::Staging => seq![
            FileStep::Write { path: one.temp@, content: contents[task.next as int] },
        ],
        EditPhase::SettingAside => seq![
            FileStep::Rename { from: one.target@, to: task.backups@[task.next as int]@ },
        ],
        EditPhase::Committing => seq![FileStep::Rename { from: one.temp@, to: one.target@ }],
        _ => Seq::empty(),
    }
}

/// Staging does not depend on where originals are set aside.
proof fn lemma_stage_steps_same(a: Seq<Places>, b: Seq<Places>, contents: Seq<Seq<u8>>, n: int)
    requires
        forall|i: int| 0 <= i < n ==> (#[trigger] a[i]).temp == b[i].temp,
    ensures
        stage_steps(a, contents, n) == stage_steps(b, contents, n),
    decreases n,
{
    if n > 0 {
        assert(a[n - 1].temp == b[n - 1].temp);
        lemma_stage_steps_same(a, b, contents, n - 1);
    }
}

proof fn lemma_aside_steps_same(a: Seq<Places>, b: Seq<Places>, n: int)
    requires
        forall|i: int| 0 <= i < n ==> #[trigger] a[i] == b[i],
    ensures
        aside_steps(a, n) == aside_steps(b, n),
    decreases n,
{
    if n > 0 {
        assert(a[n - 1] == b[n - 1]);
        lemma_aside_steps_same(a, b, n - 1);
    }
}

/// Replacements without a backup are not set aside.
proof fn lemma_aside_rest(places: Seq<Places>, k: int, n: int)
    requires
        0 <= k <= n <= places.len(),
        forall|i: int| k <= i < n ==> (#[trigger] places[i]).backup is None,
    ensures
        aside_steps(places, n) == aside_steps(places, k),
    decreases n - k,
{
    if k < n {
        lemma_aside_rest(places, k, n - 1);
        assert(places[n - 1].backup is None);
        assert(aside_steps(places, n) =~= aside_steps(places, n - 1));
    }
}

/// The steps of an edit follow each other: what was done when the last step went well
/// is what was done before, and that step.
pub proof fn edit_steps_follow_each_other(
    contents: Seq<Seq<u8>>,
    before: EditTask,
    news: EditNews,
    after: EditTask,
    step: EditStep,
)
    requires
        before.wf(),
        edit_stepped(before, news, after, step),
        !(news is Failed),
        step != EditStep::Wait,
        contents.len() == before.staged@.len(),
    ensures
        taken_steps(after, contents) == taken_steps(before, contents) + if news
            == EditNews::Present(true) || news == EditNews::Present(false) {
            Seq::empty()
        } else {
            asked_step(before, contents)
        },
{
    let a = places_of(before.staged@);
    let b = places_of(after.staged@);
    let n = a.len() as int;
    let k = before.next as int;
    assert(b.len() == n);
    assert(a[k] == before.staged@[k]@);
    match before.phase {
        EditPhase::Staging => {
            assert(aside_steps(a, 0) =~= Seq::empty());
            assert(stage_steps(a, contents, n) + aside_steps(a, 0) =~= stage_steps(a, contents, n));
        },
        EditPhase::Looking => {
            if news == EditNews::Present(false) {
                lemma_aside_rest(a, k, k + 1);
                assert(commit_steps(a, 0) =~= Seq::empty());
                assert(edit_steps(a, contents, 0) =~= stage_steps(a, contents, n) + aside_steps(
                    a,
                    n,
                ));
            }
            assert(taken_steps(before, contents) + Seq::<FileStep>::empty() =~= taken_steps(
                before,
                contents,
            ));
        },
        EditPhase::SettingAside => {
            assert forall|i: int| 0 <= i < n implies (#[trigger] a[i]).temp == b[i].temp by {
                assert(a[i] == before.staged@[i]@);
                assert(b[i] == after.staged@[i]@);
            }
            lemma_stage_steps_same(a, b, contents, n);
            assert forall|i: int| 0 <= i < k implies #[trigger] a[i] == b[i] by {
                assert(a[i] == before.staged@[i]@);
                assert(b[i] == after.staged@[i]@);
            }
            lemma_aside_steps_same(a, b, k);
            assert(b[k] == after.staged@[k]@);
            let one = asked_step(before, contents);
            assert(aside_steps(b, k + 1) =~= aside_steps(b, k) + one);
            assert(stage_steps(b, contents, n) + aside_steps(b, k + 1) =~= stage_steps(
                b,
                contents,
                n,
            ) + aside_steps(b, k) + one);
            assert(commit_steps(b, 0) =~= Seq::empty());
            assert(edit_steps(b, contents, 0) =~= stage_steps(b, contents, n) + aside_steps(b, n));
        },
        EditPhase::Committing => {
            assert(commit_steps(a, k + 1) =~= commit_steps(a, k) + asked_step(before, contents));
            assert(edit_steps(a, contents, k + 1) =~= edit_steps(a, contents, k) + asked_step(
                before,
                contents,
            ));
        },
        EditPhase::Ended => {},
    }
}

/// Removing the temporary files from the `i`-th on brings the files back.
proof fn lemma_discard(now: Files, before: Files, places: Seq<Places>, k: int, i: int)
    requires
        separate(before, places),
        0 <= i <= k <= places.len(),
        forall|j: int| 0 <= j < i ==> !now.contains_key((#[trigger] places[j]).temp),
        forall|p: Seq<char>|
            (forall|j: int| 0 <= j < k ==> (#[trigger] places[j]).temp != p) ==> #[trigger] at(
                now,
                p,
            ) == at(before, p),
    ensures
        ran(now, discard_steps(places, k).skip(i)) == before,
    decreases k - i,
{
    let rest = discard_steps(places, k).skip(i);
    if i == k {
        assert(rest =~= Seq::empty());
        assert forall|p: Seq<char>| at(now, p) == at(before, p) by {
            if exists|j: int| 0 <= j < k && (#[trigger] places[j]).temp == p {
                let j = choose|j: int| 0 <= j < k && (#[trigger] places[j]).temp == p;
                assert(!now.contains_key(places[j].temp));
                assert(!before.contains_key(places[j].temp));
            }
        }
        assert forall|p: Seq<char>| now.contains_key(p) == before.contains_key(p) by {
            assert(at(now, p) == at(before, p));
        }
        assert forall|p: Seq<char>| now.contains_key(p) implies now[p] == before[p] by {
            assert(at(now, p) == at(before, p));
        }
        assert(now =~= before);
    } else {
        let step = FileStep::Remove { path: places[i].temp };
        assert(rest =~= seq![step] + discard_steps(places, k).skip(i + 1));
        lemma_ran_concat(now, seq![step], discard_steps(places, k).skip(i + 1));
        lemma_one_step(now, step);
        let next = stepped(now, step);
        assert forall|p: Seq<char>|
            (forall|j: int| 0 <= j < k ==> (#[trigger] places[j]).temp != p) implies #[trigger] at(
            next,
            p,
        ) == at(before, p) by {
            assert(places[i].temp != p);
            assert(at(now, p) == at(before, p));
        }
        lemma_discard(next, before, places, k, i + 1);
    }
}

/// An edit is made wholly or not at all: whenever it ends with an error, what is left
/// to be done gives the files from before, and when it ends well, every content is in
/// its place and nothing else has changed. All places differ, what is new is new, and
/// whether there are originals was told truly; a step that fails changes no file.
pub proof fn edits_end_whole_or_not_at_all(
    files: Files,
    contents: Seq<Seq<u8>>,
    before: EditTask,
    news: EditNews,
    after: EditTask,
    step: EditStep,
)
    requires
        before.wf(),
        edit_stepped(before, news, after, step),
        step is Finish,
        contents.len() == before.staged@.len(),
        separate(files, places_of(before.staged@)),
        before.phase == EditPhase::Committing ==> originals_kept(files, places_of(before.staged@)),
    ensures
        news is Failed ==> step->result is Err && ran(
            ran(files, taken_steps(before, contents)),
            steps_of(step->cleanup@),
        ) == files,
        !(news is Failed) ==> step->result is Ok && ran(
            ran(files, taken_steps(before, contents) + asked_step(before, contents)),
            steps_of(step->cleanup@),
        ) == replaced(files, places_of(before.staged@), contents, before.staged@.len() as int),
{
    let places = places_of(before.staged@);
    let n = places.len() as int;
    let k = before.next as int;
    match before.phase {
        EditPhase::Staging => {
            lemma_staged_only(files, places, contents, k);
            let now = ran(files, stage_steps(places, contents, k));
            lemma_discard(now, files, places, k, 0);
            assert(discard_steps(places, k).skip(0) =~= discard_steps(places, k));
        },
        EditPhase::Committing => {
            edit_is_all_or_nothing(files, places, contents, k);
            if !(news is Failed) {
                edit_steps_follow_each_other(contents, before, news, after, step);
            }
        },
        EditPhase::Ended => {},
        _ => {
            assert forall|i: int| k <= i < n implies (#[trigger] places[i]).backup is None by {
                assert(places[i] == before.staged@[i]@);
            }
            lemma_aside_rest(places, k, n);
            assert(commit_steps(places, 0) =~= Seq::empty());
            assert(edit_steps(places, contents, 0) =~= taken_steps(before, contents));
            edit_steps_make_progress(files, places, contents, 0);
            refused_edit_restores_files(
                ran(files, taken_steps(before, contents)),
                files,
                places,
                contents,
            );
        },
    }
}

} // verus!
