//! Writing several files together or not at all: each new content is staged in
//! a temporary file, originals are set aside, and a failure is undone step by
//! step.
use vstd::prelude::*;

use crate::words::join4;

verus! {

/// One file to be replaced: its staged content, its place, and where its original
/// was set aside, if it had one.
#[derive(Debug, PartialEq, Eq)]
pub struct StagedLspReplacement {
    pub temp: String,
    pub target: String,
    pub backup: Option<String>,
}

/// One step on the file system.
#[derive(Debug, PartialEq, Eq)]
pub enum FileAction {
    Rename { from: String, to: String },
    Remove { path: String },
}

/// The places of one replacement.
pub struct Places {
    pub temp: Seq<char>,
    pub target: Seq<char>,
    pub backup: Option<Seq<char>>,
}

/// A step on the file system, by its paths.
pub enum FileStep {
    Write { path: Seq<char>, content: Seq<u8> },
    Rename { from: Seq<char>, to: Seq<char> },
    Remove { path: Seq<char> },
}

impl View for StagedLspReplacement {
    type V = Places;

    open spec fn view(&self) -> Places {
        Places {
            temp: self.temp@,
            target: self.target@,
            backup: match self.backup {
                Some(b) => Some(b@),
                None => None,
            },
        }
    }
}

impl View for FileAction {
    type V = FileStep;

    open spec fn view(&self) -> FileStep {
        match self {
            FileAction::Rename { from, to } => FileStep::Rename { from: from@, to: to@ },
            FileAction::Remove { path } => FileStep::Remove { path: path@ },
        }
    }
}

/// The files by their paths.
pub type Files = Map<Seq<char>, Seq<u8>>;

/// The files after a step. Renaming or removing a file that is not there changes
/// nothing.
pub open spec fn stepped(files: Files, step: FileStep) -> Files {
    match step {
        FileStep::Write { path, content } => files.insert(path, content),
        FileStep::Rename { from, to } => if files.contains_key(from) {
            files.remove(from).insert(to, files[from])
        } else {
            files
        },
        FileStep::Remove { path } => files.remove(path),
    }
}

/// The files after several steps.
pub open spec fn ran(files: Files, steps: Seq<FileStep>) -> Files
    decreases steps.len(),
{
    if steps.len() == 0 {
        files
    } else {
        ran(stepped(files, steps[0]), steps.drop_first())
    }
}

pub proof fn lemma_ran_concat(files: Files, a: Seq<FileStep>, b: Seq<FileStep>)
    ensures
        ran(files, a + b) == ran(ran(files, a), b),
    decreases a.len(),
{
    if a.len() == 0 {
        assert(a + b =~= b);
    } else {
        assert((a + b).drop_first() =~= a.drop_first() + b);
        lemma_ran_concat(stepped(files, a[0]), a.drop_first(), b);
    }
}

/// The content at a path, if there is a file.
pub open spec fn at(files: Files, path: Seq<char>) -> Option<Seq<u8>> {
    if files.contains_key(path) {
        Some(files[path])
    } else {
        None
    }
}

/// Whether a path is one of the places of replacements.
pub open spec fn is_place(places: Seq<Places>, path: Seq<char>) -> bool {
    exists|j: int|
        0 <= j < places.len() && ((#[trigger] places[j]).temp == path || places[j].target == path
            || places[j].backup == Some(path))
}

/// Whether all places differ, and temporary files and backups are new.
pub open spec fn separate(files: Files, places: Seq<Places>) -> bool {
    &&& forall|i: int, j: int|
        #![trigger places[i], places[j]]
        0 <= i < places.len() && 0 <= j < places.len() && i != j ==> {
            &&& places[i].temp != places[j].temp
            &&& places[i].target != places[j].target
            &&& places[i].backup is Some ==> places[i].backup != places[j].backup
        }
    &&& forall|i: int, j: int|
        #![trigger places[i], places[j]]
        0 <= i < places.len() && 0 <= j < places.len() ==> {
            &&& places[i].temp != places[j].target
            &&& places[i].backup != Some(places[j].temp)
            &&& places[i].backup != Some(places[j].target)
        }
    &&& forall|i: int|
        0 <= i < places.len() ==> {
            &&& !files.contains_key((#[trigger] places[i]).temp)
            &&& places[i].backup is Some ==> !files.contains_key(places[i].backup->0)
            &&& places[i].backup is Some ==> files.contains_key(places[i].target)
        }
}

/// The files in the middle of the edit: all contents are staged but those of the
/// first `committed` replacements, which are in place; the originals that have a
/// backup are set aside.
pub open spec fn in_progress(
    now: Files,
    before: Files,
    places: Seq<Places>,
    contents: Seq<Seq<u8>>,
    committed: int,
) -> bool {
    &&& forall|j: int|
        0 <= j < places.len() ==> at(now, (#[trigger] places[j]).temp) == if j < committed {
            None
        } else {
            Some(contents[j])
        }
    &&& forall|j: int|
        0 <= j < places.len() && (#[trigger] places[j]).backup is Some ==> at(
            now,
            places[j].backup->0,
        ) == at(before, places[j].target)
    &&& forall|j: int|
        0 <= j < places.len() ==> at(now, (#[trigger] places[j]).target) == if j < committed {
            Some(contents[j])
        } else if places[j].backup is Some {
            None
        } else {
            at(before, places[j].target)
        }
    &&& forall|p: Seq<char>| !is_place(places, p) ==> #[trigger] at(now, p) == at(before, p)
}

/// The steps that undo one replacement: the original goes back, the temporary file
/// goes away.
pub open spec fn undo_one(p: Places) -> Seq<FileStep> {
    match p.backup {
        Some(b) => seq![
            FileStep::Rename { from: b, to: p.target },
            FileStep::Remove { path: p.temp },
        ],
        None => seq![FileStep::Remove { path: p.temp }],
    }
}

/// The steps that undo the first `n` replacements, the last one first.
pub open spec fn undo_steps(places: Seq<Places>, n: int) -> Seq<FileStep>
    decreases n,
{
    if n <= 0 {
        Seq::empty()
    } else {
        undo_one(places[n - 1]) + undo_steps(places, n - 1)
    }
}

/// The steps that take the first `n` new files out of their places, the last one
/// first.
pub open spec fn uncommit_steps(places: Seq<Places>, n: int) -> Seq<FileStep>
    decreases n,
{
    if n <= 0 {
        Seq::empty()
    } else {
        seq![FileStep::Remove { path: places[n - 1].target }] + uncommit_steps(places, n - 1)
    }
}

/// The steps that tidy up after one replacement: backup and temporary file go
/// away.
pub open spec fn tidy_one(p: Places) -> Seq<FileStep> {
    match p.backup {
        Some(b) => seq![FileStep::Remove { path: b }, FileStep::Remove { path: p.temp }],
        None => seq![FileStep::Remove { path: p.temp }],
    }
}

/// The steps that tidy up after the replacements from `i` on.
pub open spec fn tidy_steps(places: Seq<Places>, i: int) -> Seq<FileStep>
    decreases places.len() - i,
{
    if i >= places.len() {
        Seq::empty()
    } else {
        tidy_one(places[i]) + tidy_steps(places, i + 1)
    }
}

/// The steps after a failed commit: what was put in place is taken out, then every
/// replacement is undone.
pub open spec fn rollback_steps(places: Seq<Places>, committed: int) -> Seq<FileStep> {
    uncommit_steps(places, committed) + undo_steps(places, places.len() as int)
}

/// The files while the replacements from `k` on are undone already.
spec fn partly_undone(
    now: Files,
    before: Files,
    places: Seq<Places>,
    contents: Seq<Seq<u8>>,
    k: int,
) -> bool {
    &&& forall|j: int|
        0 <= j < places.len() ==> at(now, (#[trigger] places[j]).temp) == if j < k {
            at(now, places[j].temp)
        } else {
            None
        }
    &&& forall|j: int|
        0 <= j < places.len() && (#[trigger] places[j]).backup is Some ==> at(
            now,
            places[j].backup->0,
        ) == if j < k {
            at(before, places[j].target)
        } else {
            None
        }
    &&& forall|j: int|
        0 <= j < places.len() ==> at(now, (#[trigger] places[j]).target) == if j < k
            && places[j].backup is Some {
            None
        } else {
            at(before, places[j].target)
        }
    &&& forall|p: Seq<char>| !is_place(places, p) ==> #[trigger] at(now, p) == at(before, p)
}

/// Undoing the replacements one after the other brings every file back.
proof fn lemma_undo(
    now: Files,
    before: Files,
    places: Seq<Places>,
    contents: Seq<Seq<u8>>,
    k: int,
)
    requires
        separate(before, places),
        0 <= k <= places.len(),
        partly_undone(now, before, places, contents, k),
    ensures
        ran(now, undo_steps(places, k)) == before,
    decreases k,
{
    if k == 0 {
        assert forall|p: Seq<char>| at(now, p) == at(before, p) by {
            if is_place(places, p) {
                let j = choose|j: int|
                    0 <= j < places.len() && ((#[trigger] places[j]).temp == p || places[j].target
                        == p || places[j].backup == Some(p));
            }
        }
        assert forall|p: Seq<char>| now.contains_key(p) == before.contains_key(p) by {
            assert(at(now, p) == at(before, p));
        }
        assert forall|p: Seq<char>| now.contains_key(p) implies now[p] == before[p] by {
            assert(at(now, p) == at(before, p));
        }
        assert(now =~= before);
    } else {
        let one = places[k - 1];
        let steps = undo_one(one);
        lemma_ran_concat(now, steps, undo_steps(places, k - 1));
        let next = ran(now, steps);
        reveal_with_fuel(ran, 3);
        match one.backup {
            Some(b) => {
                assert(steps.drop_first() =~= seq![FileStep::Remove { path: one.temp }]);
                assert(steps.drop_first().drop_first() =~= Seq::empty());
                assert(now.contains_key(b)) by {
                    assert(at(now, b) == at(before, one.target));
                }
                assert(next =~= now.remove(b).insert(one.target, now[b]).remove(one.temp));
            },
            None => {
                assert(steps.drop_first() =~= Seq::empty());
                assert(next =~= now.remove(one.temp));
            },
        }
        assert(partly_undone(next, before, places, contents, k - 1)) by {
            assert forall|p: Seq<char>| !is_place(places, p) implies #[trigger] at(next, p) == at(
                before,
                p,
            ) by {
                assert(at(now, p) == at(before, p));
                assert(places[k - 1] == one);
                assert(p != one.temp && p != one.target && one.backup != Some(p));
            }
            assert forall|j: int| 0 <= j < places.len() && (
            #[trigger] places[j]).backup is Some implies at(next, places[j].backup->0) == (if j < k
                - 1 {
                at(before, places[j].target)
            } else {
                None
            }) by {
                assert(at(now, places[j].backup->0) == if j < k {
                    at(before, places[j].target)
                } else {
                    None
                });
                assert(places[k - 1] == one);
            }
            assert forall|j: int| 0 <= j < places.len() implies at(
                next,
                (#[trigger] places[j]).target,
            ) == (if j < k - 1 && places[j].backup is Some {
                None
            } else {
                at(before, places[j].target)
            }) by {
                assert(places[k - 1] == one);
            }
            assert forall|j: int| 0 <= j < places.len() implies at(
                next,
                (#[trigger] places[j]).temp,
            ) == (if j < k - 1 {
                at(next, places[j].temp)
            } else {
                None
            }) by {
                assert(places[k - 1] == one);
            }
        }
        lemma_undo(next, before, places, contents, k - 1);
    }
}

/// Taking out what was put in place leaves the files as before the commit, without
/// the staged contents of what was put in place.
proof fn lemma_uncommit(
    now: Files,
    before: Files,
    places: Seq<Places>,
    contents: Seq<Seq<u8>>,
    committed: int,
    k: int,
)
    requires
        separate(before, places),
        0 <= k <= committed <= places.len(),
        forall|j: int|
            0 <= j < places.len() ==> at(now, (#[trigger] places[j]).temp) == if j < committed {
                None
            } else {
                Some(contents[j])
            },
        forall|j: int|
            0 <= j < places.len() && (#[trigger] places[j]).backup is Some ==> at(
                now,
                places[j].backup->0,
            ) == at(before, places[j].target),
        forall|j: int|
            0 <= j < places.len() ==> at(now, (#[trigger] places[j]).target) == if j < k {
                Some(contents[j])
            } else if places[j].backup is Some {
                None
            } else {
                at(before, places[j].target)
            },
        forall|j: int|
            0 <= j < k ==> (#[trigger] places[j]).backup is None ==> at(before, places[j].target)
                is None,
        forall|p: Seq<char>| !is_place(places, p) ==> #[trigger] at(now, p) == at(before, p),
    ensures
        partly_undone(
            ran(now, uncommit_steps(places, k)),
            before,
            places,
            contents,
            places.len() as int,
        ),
    decreases k,
{
    if k > 0 {
        let one = places[k - 1];
        let steps = seq![FileStep::Remove { path: one.target }];
        lemma_ran_concat(now, steps, uncommit_steps(places, k - 1));
        let next = now.remove(one.target);
        reveal_with_fuel(ran, 2);
        assert(steps.drop_first() =~= Seq::empty());
        assert(ran(now, steps) == next);
        assert forall|p: Seq<char>| !is_place(places, p) implies #[trigger] at(next, p) == at(
            before,
            p,
        ) by {
            assert(at(now, p) == at(before, p));
            assert(places[k - 1] == one);
            assert(p != one.target);
        }
        assert forall|j: int| 0 <= j < places.len() implies at(next, (#[trigger] places[j]).target)
            == (if j < k - 1 {
            Some(contents[j])
        } else if places[j].backup is Some {
            None
        } else {
            at(before, places[j].target)
        }) by {
            assert(places[k - 1] == one);
        }
        lemma_uncommit(next, before, places, contents, committed, k - 1);
    }
}

/// A workspace edit that fails while it is put in place leaves every file as it
/// was: undoing it after `committed` replacements gives the files from before.
pub proof fn failed_edit_restores_files(
    now: Files,
    before: Files,
    places: Seq<Places>,
    contents: Seq<Seq<u8>>,
    committed: int,
)
    requires
        separate(before, places),
        0 <= committed <= places.len(),
        in_progress(now, before, places, contents, committed),
        forall|j: int|
            0 <= j < committed ==> (#[trigger] places[j]).backup is None ==> !before.contains_key(
                places[j].target,
            ),
    ensures
        ran(now, rollback_steps(places, committed)) == before,
{
    lemma_uncommit(now, before, places, contents, committed, committed);
    let middle = ran(now, uncommit_steps(places, committed));
    lemma_ran_concat(
        now,
        uncommit_steps(places, committed),
        undo_steps(places, places.len() as int),
    );
    lemma_undo(middle, before, places, contents, places.len() as int);
}

/// A workspace edit that fails before anything is put in place leaves every file
/// as it was.
pub proof fn refused_edit_restores_files(
    now: Files,
    before: Files,
    places: Seq<Places>,
    contents: Seq<Seq<u8>>,
)
    requires
        separate(before, places),
        in_progress(now, before, places, contents, 0),
    ensures
        ran(now, undo_steps(places, places.len() as int)) == before,
{
    failed_edit_restores_files(now, before, places, contents, 0);
    assert(rollback_steps(places, 0) =~= undo_steps(places, places.len() as int));
}

/// The files after the first `n` replacements were made.
pub open spec fn replaced(before: Files, places: Seq<Places>, contents: Seq<Seq<u8>>, n: int) ->
    Files
    decreases n,
{
    if n <= 0 {
        before
    } else {
        replaced(before, places, contents, n - 1).insert(places[n - 1].target, contents[n - 1])
    }
}

proof fn lemma_replaced(before: Files, places: Seq<Places>, contents: Seq<Seq<u8>>, n: int)
    requires
        separate(before, places),
        0 <= n <= places.len(),
    ensures
        forall|j: int|
            0 <= j < n ==> at(
                replaced(before, places, contents, n),
                (#[trigger] places[j]).target,
            ) == Some(contents[j]),
        forall|p: Seq<char>|
            (forall|j: int| 0 <= j < n ==> (#[trigger] places[j]).target != p) ==> #[trigger] at(
                replaced(before, places, contents, n),
                p,
            ) == at(before, p),
    decreases n,
{
    if n > 0 {
        lemma_replaced(before, places, contents, n - 1);
        let prior = replaced(before, places, contents, n - 1);
        assert forall|p: Seq<char>|
            (forall|j: int| 0 <= j < n ==> (#[trigger] places[j]).target != p) implies #[trigger] at(
            replaced(before, places, contents, n),
            p,
        ) == at(before, p) by {
            assert(places[n - 1].target != p);
            assert(at(prior, p) == at(before, p));
        }
        assert forall|j: int| 0 <= j < n implies at(
            replaced(before, places, contents, n),
            (#[trigger] places[j]).target,
        ) == Some(contents[j]) by {
            if j < n - 1 {
                assert(at(prior, places[j].target) == Some(contents[j]));
                assert(places[n - 1].target != places[j].target);
            }
        }
    }
}

/// The files while the replacements before `i` are tidied up.
spec fn partly_tidied(
    now: Files,
    before: Files,
    places: Seq<Places>,
    contents: Seq<Seq<u8>>,
    i: int,
) -> bool {
    &&& forall|j: int| 0 <= j < places.len() ==> at(now, (#[trigger] places[j]).temp) is None
    &&& forall|j: int|
        0 <= j < i && (#[trigger] places[j]).backup is Some ==> at(now, places[j].backup->0) is None
    &&& forall|j: int|
        0 <= j < places.len() ==> at(now, (#[trigger] places[j]).target) == Some(contents[j])
    &&& forall|p: Seq<char>| !is_place(places, p) ==> #[trigger] at(now, p) == at(before, p)
}

proof fn lemma_tidy(
    now: Files,
    before: Files,
    places: Seq<Places>,
    contents: Seq<Seq<u8>>,
    i: int,
)
    requires
        separate(before, places),
        0 <= i <= places.len(),
        partly_tidied(now, before, places, contents, i),
    ensures
        partly_tidied(
            ran(now, tidy_steps(places, i)),
            before,
            places,
            contents,
            places.len() as int,
        ),
    decreases places.len() - i,
{
    if i < places.len() {
        let one = places[i];
        let steps = tidy_one(one);
        lemma_ran_concat(now, steps, tidy_steps(places, i + 1));
        let next = ran(now, steps);
        reveal_with_fuel(ran, 3);
        match one.backup {
            Some(b) => {
                assert(steps.drop_first() =~= seq![FileStep::Remove { path: one.temp }]);
                assert(steps.drop_first().drop_first() =~= Seq::empty());
                assert(next =~= now.remove(b).remove(one.temp));
            },
            None => {
                assert(steps.drop_first() =~= Seq::empty());
                assert(next =~= now.remove(one.temp));
            },
        }
        assert forall|p: Seq<char>| !is_place(places, p) implies #[trigger] at(next, p) == at(
            before,
            p,
        ) by {
            assert(at(now, p) == at(before, p));
            assert(places[i] == one);
            assert(p != one.temp && one.backup != Some(p));
        }
        assert forall|j: int| 0 <= j < places.len() implies at(next, (#[trigger] places[j]).target)
            == Some(contents[j]) by {
            assert(places[i] == one);
            assert(at(now, places[j].target) == Some(contents[j]));
        }
        assert forall|j: int| 0 <= j < i + 1 && (#[trigger] places[j]).backup is Some implies at(
            next,
            places[j].backup->0,
        ) is None by {
            assert(places[i] == one);
            if j < i {
                assert(at(now, places[j].backup->0) is None);
            }
        }
        lemma_tidy(next, before, places, contents, i + 1);
    }
}

/// A workspace edit that was put in place and tidied up has written every new
/// content and touched nothing else.
pub proof fn applied_edit_writes_all_files(
    now: Files,
    before: Files,
    places: Seq<Places>,
    contents: Seq<Seq<u8>>,
)
    requires
        separate(before, places),
        in_progress(now, before, places, contents, places.len() as int),
    ensures
        ran(now, tidy_steps(places, 0)) == replaced(
            before,
            places,
            contents,
            places.len() as int,
        ),
{
    assert(partly_tidied(now, before, places, contents, 0));
    lemma_tidy(now, before, places, contents, 0);
    lemma_replaced(before, places, contents, places.len() as int);
    let after = ran(now, tidy_steps(places, 0));
    let goal = replaced(before, places, contents, places.len() as int);
    assert forall|p: Seq<char>| at(after, p) == at(goal, p) by {
        if is_place(places, p) {
            let j = choose|j: int|
                0 <= j < places.len() && ((#[trigger] places[j]).temp == p || places[j].target == p
                    || places[j].backup == Some(p));
            if places[j].target != p {
                assert forall|m: int| 0 <= m < places.len() implies (#[trigger] places[m]).target
                    != p by {
                    assert(places[j].temp != places[m].target);
                }
                assert(!before.contains_key(p));
            }
        } else {
            assert forall|m: int| 0 <= m < places.len() implies (#[trigger] places[m]).target
                != p by {}
        }
    }
    assert forall|p: Seq<char>| after.contains_key(p) == goal.contains_key(p) by {
        assert(at(after, p) == at(goal, p));
    }
    assert forall|p: Seq<char>| after.contains_key(p) implies after[p] == goal[p] by {
        assert(at(after, p) == at(goal, p));
    }
    assert(after =~= goal);
}

/// The steps that stage the first `n` contents.
pub open spec fn stage_steps(places: Seq<Places>, contents: Seq<Seq<u8>>, n: int) -> Seq<FileStep>
    decreases n,
{
    if n <= 0 {
        Seq::empty()
    } else {
        stage_steps(places, contents, n - 1) + seq![
            FileStep::Write { path: places[n - 1].temp, content: contents[n - 1] },
        ]
    }
}

/// The step that sets one original aside, if it has a backup.
pub open spec fn aside_one(p: Places) -> Seq<FileStep> {
    match p.backup {
        Some(b) => seq![FileStep::Rename { from: p.target, to: b }],
        None => Seq::empty(),
    }
}

/// The steps that set the first `n` originals aside.
pub open spec fn aside_steps(places: Seq<Places>, n: int) -> Seq<FileStep>
    decreases n,
{
    if n <= 0 {
        Seq::empty()
    } else {
        aside_steps(places, n - 1) + aside_one(places[n - 1])
    }
}

/// The steps that put the first `n` contents in place.
pub open spec fn commit_steps(places: Seq<Places>, n: int) -> Seq<FileStep>
    decreases n,
{
    if n <= 0 {
        Seq::empty()
    } else {
        commit_steps(places, n - 1) + seq![
            FileStep::Rename { from: places[n - 1].temp, to: places[n - 1].target },
        ]
    }
}

/// The files after `staged` contents are staged, `aside` originals are set aside
/// and `committed` contents are in place.
spec fn reached(
    now: Files,
    before: Files,
    places: Seq<Places>,
    contents: Seq<Seq<u8>>,
    staged: int,
    aside: int,
    committed: int,
) -> bool {
    &&& forall|j: int|
        0 <= j < places.len() ==> at(now, (#[trigger] places[j]).temp) == if committed <= j
            < staged {
            Some(contents[j])
        } else {
            None
        }
    &&& forall|j: int|
        0 <= j < places.len() && (#[trigger] places[j]).backup is Some ==> at(
            now,
            places[j].backup->0,
        ) == if j < aside {
            at(before, places[j].target)
        } else {
            None
        }
    &&& forall|j: int|
        0 <= j < places.len() ==> at(now, (#[trigger] places[j]).target) == if j < committed {
            Some(contents[j])
        } else if j < aside && places[j].backup is Some {
            None
        } else {
            at(before, places[j].target)
        }
    &&& forall|p: Seq<char>| !is_place(places, p) ==> #[trigger] at(now, p) == at(before, p)
}

pub proof fn lemma_one_step(files: Files, step: FileStep)
    ensures
        ran(files, seq![step]) == stepped(files, step),
{
    reveal_with_fuel(ran, 2);
    assert(seq![step].drop_first() =~= Seq::empty());
}

proof fn lemma_staged(before: Files, places: Seq<Places>, contents: Seq<Seq<u8>>, n: int)
    requires
        separate(before, places),
        0 <= n <= places.len(),
    ensures
        reached(ran(before, stage_steps(places, contents, n)), before, places, contents, n, 0, 0),
    decreases n,
{
    if n > 0 {
        lemma_staged(before, places, contents, n - 1);
        let prior = ran(before, stage_steps(places, contents, n - 1));
        let one = places[n - 1];
        let step = FileStep::Write { path: one.temp, content: contents[n - 1] };
        lemma_ran_concat(before, stage_steps(places, contents, n - 1), seq![step]);
        lemma_one_step(prior, step);
        let now = stepped(prior, step);
        assert forall|p: Seq<char>| !is_place(places, p) implies #[trigger] at(now, p) == at(
            before,
            p,
        ) by {
            assert(at(prior, p) == at(before, p));
            assert(places[n - 1] == one);
            assert(p != one.temp);
        }
        assert forall|j: int| 0 <= j < places.len() && (
        #[trigger] places[j]).backup is Some implies at(now, places[j].backup->0) is None by {
            assert(places[n - 1] == one);
            assert(at(prior, places[j].backup->0) is None);
        }
        assert forall|j: int| 0 <= j < places.len() implies at(now, (#[trigger] places[j]).temp)
            == (if j < n {
            Some(contents[j])
        } else {
            None
        }) by {
            assert(places[n - 1] == one);
        }
        assert forall|j: int| 0 <= j < places.len() implies at(now, (#[trigger] places[j]).target)
            == at(before, places[j].target) by {
            assert(places[n - 1] == one);
        }
    } else {
        assert forall|j: int| 0 <= j < places.len() implies at(
            before,
            (#[trigger] places[j]).temp,
        ) is None by {}
    }
}

proof fn lemma_aside(
    start: Files,
    before: Files,
    places: Seq<Places>,
    contents: Seq<Seq<u8>>,
    n: int,
)
    requires
        separate(before, places),
        reached(start, before, places, contents, places.len() as int, 0, 0),
        0 <= n <= places.len(),
    ensures
        reached(
            ran(start, aside_steps(places, n)),
            before,
            places,
            contents,
            places.len() as int,
            n,
            0,
        ),
    decreases n,
{
    if n > 0 {
        lemma_aside(start, before, places, contents, n - 1);
        let prior = ran(start, aside_steps(places, n - 1));
        let one = places[n - 1];
        lemma_ran_concat(start, aside_steps(places, n - 1), aside_one(one));
        let now = ran(prior, aside_one(one));
        match one.backup {
            Some(b) => {
                let step = FileStep::Rename { from: one.target, to: b };
                lemma_one_step(prior, step);
                assert(prior.contains_key(one.target)) by {
                    assert(at(prior, one.target) == at(before, one.target));
                }
                assert(now == prior.remove(one.target).insert(b, prior[one.target]));
            },
            None => {
                assert(now == prior);
            },
        }
        assert forall|p: Seq<char>| !is_place(places, p) implies #[trigger] at(now, p) == at(
            before,
            p,
        ) by {
            assert(at(prior, p) == at(before, p));
            assert(places[n - 1] == one);
            assert(p != one.target && one.backup != Some(p));
        }
        assert forall|j: int| 0 <= j < places.len() && (
        #[trigger] places[j]).backup is Some implies at(now, places[j].backup->0) == (if j < n {
            at(before, places[j].target)
        } else {
            None
        }) by {
            assert(places[n - 1] == one);
            assert(at(prior, places[j].backup->0) == if j < n - 1 {
                at(before, places[j].target)
            } else {
                None
            });
            assert(at(prior, one.target) == at(before, one.target));
        }
        assert forall|j: int| 0 <= j < places.len() implies at(now, (#[trigger] places[j]).temp)
            == Some(contents[j]) by {
            assert(places[n - 1] == one);
            assert(at(prior, places[j].temp) == Some(contents[j]));
        }
        assert forall|j: int| 0 <= j < places.len() implies at(now, (#[trigger] places[j]).target)
            == (if j < n && places[j].backup is Some {
            None
        } else {
            at(before, places[j].target)
        }) by {
            assert(places[n - 1] == one);
        }
    }
}

proof fn lemma_committed(
    start: Files,
    before: Files,
    places: Seq<Places>,
    contents: Seq<Seq<u8>>,
    n: int,
)
    requires
        separate(before, places),
        reached(start, before, places, contents, places.len() as int, places.len() as int, 0),
        0 <= n <= places.len(),
    ensures
        reached(
            ran(start, commit_steps(places, n)),
            before,
            places,
            contents,
            places.len() as int,
            places.len() as int,
            n,
        ),
    decreases n,
{
    if n > 0 {
        lemma_committed(start, before, places, contents, n - 1);
        let prior = ran(start, commit_steps(places, n - 1));
        let one = places[n - 1];
        let step = FileStep::Rename { from: one.temp, to: one.target };
        lemma_ran_concat(start, commit_steps(places, n - 1), seq![step]);
        lemma_one_step(prior, step);
        let now = stepped(prior, step);
        assert(at(prior, one.temp) == Some(contents[n - 1]));
        assert(now == prior.remove(one.temp).insert(one.target, contents[n - 1]));
        assert forall|p: Seq<char>| !is_place(places, p) implies #[trigger] at(now, p) == at(
            before,
            p,
        ) by {
            assert(at(prior, p) == at(before, p));
            assert(places[n - 1] == one);
            assert(p != one.target && p != one.temp);
        }
        assert forall|j: int| 0 <= j < places.len() && (
        #[trigger] places[j]).backup is Some implies at(now, places[j].backup->0) == at(
            before,
            places[j].target,
        ) by {
            assert(places[n - 1] == one);
            assert(at(prior, places[j].backup->0) == at(before, places[j].target));
        }
        assert forall|j: int| 0 <= j < places.len() implies at(now, (#[trigger] places[j]).temp)
            == (if n <= j {
            Some(contents[j])
        } else {
            None
        }) by {
            assert(places[n - 1] == one);
        }
        assert forall|j: int| 0 <= j < places.len() implies at(now, (#[trigger] places[j]).target)
            == (if j < n {
            Some(contents[j])
        } else if places[j].backup is Some {
            None
        } else {
            at(before, places[j].target)
        }) by {
            assert(places[n - 1] == one);
        }
    }
}

/// All the steps of a workspace edit up to the first `committed` contents in
/// place.
pub open spec fn edit_steps(places: Seq<Places>, contents: Seq<Seq<u8>>, committed: int) -> Seq<
    FileStep,
> {
    stage_steps(places, contents, places.len() as int) + aside_steps(places, places.len() as int)
        + commit_steps(places, committed)
}

/// Staging every content, setting the originals aside and putting contents in
/// place leads to an edit in progress.
pub proof fn edit_steps_make_progress(
    before: Files,
    places: Seq<Places>,
    contents: Seq<Seq<u8>>,
    committed: int,
)
    requires
        separate(before, places),
        0 <= committed <= places.len(),
    ensures
        in_progress(
            ran(before, edit_steps(places, contents, committed)),
            before,
            places,
            contents,
            committed,
        ),
{
    let n = places.len() as int;
    let a = stage_steps(places, contents, n);
    let b = aside_steps(places, n);
    lemma_staged(before, places, contents, n);
    lemma_aside(ran(before, a), before, places, contents, n);
    lemma_ran_concat(before, a, b);
    lemma_ran_concat(before, a + b, commit_steps(places, committed));
    lemma_committed(ran(before, a + b), before, places, contents, committed);
}

/// Whether every file that is there already gets a backup.
pub open spec fn originals_kept(before: Files, places: Seq<Places>) -> bool {
    forall|j: int|
        0 <= j < places.len() ==> ((#[trigger] places[j]).backup is Some <==> before.contains_key(
            places[j].target,
        ))
}

/// A workspace edit writes all files or none: all steps and the tidying up write
/// every new content and touch nothing else, and undoing the edit after any number
/// of contents were put in place gives the files from before.
pub proof fn edit_is_all_or_nothing(
    before: Files,
    places: Seq<Places>,
    contents: Seq<Seq<u8>>,
    committed: int,
)
    requires
        separate(before, places),
        originals_kept(before, places),
        0 <= committed <= places.len(),
    ensures
        ran(
            ran(before, edit_steps(places, contents, places.len() as int)),
            tidy_steps(places, 0),
        ) == replaced(before, places, contents, places.len() as int),
        ran(
            ran(before, edit_steps(places, contents, committed)),
            rollback_steps(places, committed),
        ) == before,
{
    let n = places.len() as int;
    edit_steps_make_progress(before, places, contents, n);
    applied_edit_writes_all_files(
        ran(before, edit_steps(places, contents, n)),
        before,
        places,
        contents,
    );
    edit_steps_make_progress(before, places, contents, committed);
    failed_edit_restores_files(
        ran(before, edit_steps(places, contents, committed)),
        before,
        places,
        contents,
        committed,
    );
}

/// The steps of a list of actions.
pub open spec fn steps_of(actions: Seq<FileAction>) -> Seq<FileStep> {
    actions.map_values(|a: FileAction| a@)
}

/// The places of a list of replacements.
pub open spec fn places_of(staged: Seq<StagedLspReplacement>) -> Seq<Places> {
    staged.map_values(|s: StagedLspReplacement| s@)
}

fn undo_into(actions: &mut Vec<FileAction>, one: &StagedLspReplacement)
    ensures
        steps_of(final(actions)@) == steps_of(old(actions)@) + undo_one(one@),
{
    if let Some(backup) = &one.backup {
        actions.push(FileAction::Rename { from: backup.clone(), to: one.target.clone() });
    }
    actions.push(FileAction::Remove { path: one.temp.clone() });
    assert(steps_of(actions@) =~= steps_of(old(actions)@) + undo_one(one@));
}

/// What is done after a failure while the originals are set aside: every original
/// goes back and every temporary file goes away, the last one first.
pub fn undo_replacements(staged: &Vec<StagedLspReplacement>) -> (actions: Vec<FileAction>)
    ensures
        steps_of(actions@) == undo_steps(places_of(staged@), staged@.len() as int),
{
    let ghost places = places_of(staged@);
    let mut actions: Vec<FileAction> = Vec::new();
    let mut n: usize = staged.len();
    assert(steps_of(actions@) + undo_steps(places, n as int) =~= undo_steps(places, n as int));
    while n > 0
        invariant
            n <= staged@.len(),
            places == places_of(staged@),
            steps_of(actions@) + undo_steps(places, n as int) == undo_steps(
                places,
                staged@.len() as int,
            ),
        decreases n,
    {
        let ghost before = steps_of(actions@);
        undo_into(&mut actions, &staged[n - 1]);
        assert(places[n - 1] == staged@[n - 1]@);
        assert(before + (undo_one(places[n - 1]) + undo_steps(places, n - 1)) =~= before + undo_one(
            places[n - 1],
        ) + undo_steps(places, n - 1));
        n -= 1;
    }
    assert(steps_of(actions@) + undo_steps(places, 0) =~= steps_of(actions@));
    actions
}

/// What is done after a failed commit: what was put in place is taken out, the
/// last one first, and then every replacement is undone.
pub fn roll_back(staged: &Vec<StagedLspReplacement>, committed: usize) -> (actions: Vec<FileAction>)
    requires
        committed <= staged@.len(),
    ensures
        steps_of(actions@) == rollback_steps(places_of(staged@), committed as int),
{
    let ghost places = places_of(staged@);
    let mut actions: Vec<FileAction> = Vec::new();
    let mut n: usize = committed;
    assert(steps_of(actions@) + uncommit_steps(places, n as int) =~= uncommit_steps(
        places,
        n as int,
    ));
    while n > 0
        invariant
            n <= committed <= staged@.len(),
            places == places_of(staged@),
            steps_of(actions@) + uncommit_steps(places, n as int) == uncommit_steps(
                places,
                committed as int,
            ),
        decreases n,
    {
        let ghost before = steps_of(actions@);
        actions.push(FileAction::Remove { path: staged[n - 1].target.clone() });
        assert(places[n - 1] == staged@[n - 1]@);
        let ghost one = seq![FileStep::Remove { path: places[n - 1].target }];
        assert(steps_of(actions@) =~= before + one);
        assert(before + (one + uncommit_steps(places, n - 1)) =~= before + one + uncommit_steps(
            places,
            n - 1,
        ));
        n -= 1;
    }
    assert(steps_of(actions@) + uncommit_steps(places, 0) =~= steps_of(actions@));
    let ghost first = steps_of(actions@);
    let mut rest = undo_replacements(staged);
    let ghost second = steps_of(rest@);
    actions.append(&mut rest);
    assert(steps_of(actions@) =~= first + second);
    actions
}

/// What is done after a failure while contents are staged: the first `n` temporary
/// files, which were written, go away.
pub fn discard_staged(staged: &Vec<StagedLspReplacement>, n: usize) -> (actions: Vec<FileAction>)
    requires
        n <= staged@.len(),
    ensures
        actions@.len() == n,
        forall|i: int|
            0 <= i < n ==> (#[trigger] actions@[i])@ == (FileStep::Remove {
                path: staged@[i].temp@,
            }),
{
    let mut actions: Vec<FileAction> = Vec::new();
    for i in 0..n
        invariant
            n <= staged@.len(),
            actions@.len() == i,
            forall|k: int|
                0 <= k < i ==> (#[trigger] actions@[k])@ == (FileStep::Remove {
                    path: staged@[k].temp@,
                }),
    {
        actions.push(FileAction::Remove { path: staged[i].temp.clone() });
    }
    actions
}

/// Staging contents changes no other file.
pub proof fn lemma_staged_only(
    before: Files,
    places: Seq<Places>,
    contents: Seq<Seq<u8>>,
    n: int,
)
    requires
        0 <= n <= places.len(),
    ensures
        forall|p: Seq<char>|
            (forall|j: int| 0 <= j < n ==> (#[trigger] places[j]).temp != p) ==> #[trigger] at(
                ran(before, stage_steps(places, contents, n)),
                p,
            ) == at(before, p),
    decreases n,
{
    if n > 0 {
        lemma_staged_only(before, places, contents, n - 1);
        let prior = ran(before, stage_steps(places, contents, n - 1));
        let step = FileStep::Write { path: places[n - 1].temp, content: contents[n - 1] };
        lemma_ran_concat(before, stage_steps(places, contents, n - 1), seq![step]);
        lemma_one_step(prior, step);
        assert forall|p: Seq<char>|
            (forall|j: int| 0 <= j < n ==> (#[trigger] places[j]).temp != p) implies #[trigger] at(
            ran(before, stage_steps(places, contents, n)),
            p,
        ) == at(before, p) by {
            assert(places[n - 1].temp != p);
            assert(at(prior, p) == at(before, p));
        }
    }
}

/// What is done after every new content is in place: backups and temporary files
/// go away.
pub fn tidy_up(staged: &Vec<StagedLspReplacement>) -> (actions: Vec<FileAction>)
    ensures
        steps_of(actions@) == tidy_steps(places_of(staged@), 0),
{
    let ghost places = places_of(staged@);
    let mut actions: Vec<FileAction> = Vec::new();
    let mut i: usize = 0;
    assert(steps_of(actions@) + tidy_steps(places, 0) =~= tidy_steps(places, 0));
    while i < staged.len()
        invariant
            i <= staged@.len(),
            places == places_of(staged@),
            steps_of(actions@) + tidy_steps(places, i as int) == tidy_steps(places, 0),
        decreases staged@.len() - i,
    {
        let ghost before = steps_of(actions@);
        let one = &staged[i];
        assert(places[i as int] == one@);
        if let Some(backup) = &one.backup {
            actions.push(FileAction::Remove { path: backup.clone() });
        }
        actions.push(FileAction::Remove { path: one.temp.clone() });
        assert(steps_of(actions@) =~= before + tidy_one(places[i as int]));
        assert(before + (tidy_one(places[i as int]) + tidy_steps(places, i + 1)) =~= before
            + tidy_one(places[i as int]) + tidy_steps(places, i + 1));
        i += 1;
    }
    assert(tidy_steps(places, i as int) =~= Seq::empty());
    assert(steps_of(actions@) + tidy_steps(places, i as int) =~= steps_of(actions@));
    actions
}

/// The steps that write the first `n` of several files over.
pub open spec fn overwrite_steps(targets: Seq<Seq<char>>, contents: Seq<Seq<u8>>, n: int) -> Seq<
    FileStep,
>
    decreases n,
{
    if n <= 0 {
        Seq::empty()
    } else {
        overwrite_steps(targets, contents, n - 1) + seq![
            FileStep::Write { path: targets[n - 1], content: contents[n - 1] },
        ]
    }
}

/// The steps that write the first `n` of several files back, the last one first.
pub open spec fn write_back_steps(targets: Seq<Seq<char>>, originals: Seq<Seq<u8>>, n: int) -> Seq<
    FileStep,
>
    decreases n,
{
    if n <= 0 {
        Seq::empty()
    } else {
        seq![FileStep::Write { path: targets[n - 1], content: originals[n - 1] }]
            + write_back_steps(targets, originals, n - 1)
    }
}

proof fn lemma_overwrite_keeps(
    files: Files,
    targets: Seq<Seq<char>>,
    contents: Seq<Seq<u8>>,
    n: int,
    path: Seq<char>,
)
    requires
        forall|j: int| 0 <= j < n ==> #[trigger] targets[j] != path,
    ensures
        at(ran(files, overwrite_steps(targets, contents, n)), path) == at(files, path),
    decreases n,
{
    if n > 0 {
        lemma_overwrite_keeps(files, targets, contents, n - 1, path);
        let step = FileStep::Write { path: targets[n - 1], content: contents[n - 1] };
        lemma_ran_concat(files, overwrite_steps(targets, contents, n - 1), seq![step]);
        lemma_one_step(ran(files, overwrite_steps(targets, contents, n - 1)), step);
    }
}

/// A remote workspace edit that fails after `n` files were written leaves every
/// file as it was: writing the originals back gives the files from before.
pub proof fn failed_overwrite_restores_files(
    files: Files,
    targets: Seq<Seq<char>>,
    contents: Seq<Seq<u8>>,
    originals: Seq<Seq<u8>>,
    n: int,
)
    requires
        0 <= n <= targets.len(),
        forall|i: int, j: int|
            0 <= i < j < targets.len() ==> #[trigger] targets[i] != #[trigger] targets[j],
        forall|j: int|
            0 <= j < targets.len() ==> at(files, #[trigger] targets[j]) == Some(originals[j]),
    ensures
        ran(
            ran(files, overwrite_steps(targets, contents, n)),
            write_back_steps(targets, originals, n),
        ) == files,
    decreases n,
{
    if n > 0 {
        let t = targets[n - 1];
        let prior = ran(files, overwrite_steps(targets, contents, n - 1));
        let step = FileStep::Write { path: t, content: contents[n - 1] };
        lemma_ran_concat(files, overwrite_steps(targets, contents, n - 1), seq![step]);
        lemma_one_step(prior, step);
        let back = FileStep::Write { path: t, content: originals[n - 1] };
        lemma_ran_concat(
            stepped(prior, step),
            seq![back],
            write_back_steps(targets, originals, n - 1),
        );
        lemma_one_step(stepped(prior, step), back);
        lemma_overwrite_keeps(files, targets, contents, n - 1, t);
        assert(at(prior, t) == Some(originals[n - 1]));
        assert(stepped(stepped(prior, step), back) =~= prior);
        failed_overwrite_restores_files(files, targets, contents, originals, n - 1);
    }
}

/// The name of a file next to another one: hidden, with a tag and an identifier.
pub open spec fn sibling_name(name: Seq<char>, tag: Seq<char>, id: Seq<char>) -> Seq<char> {
    "."@ + name + tag + id + ".tmp"@
}

/// The name of a file next to another one.
pub fn sibling(name: &str, tag: &str, id: &str) -> (out: String)
    ensures
        out@ == sibling_name(name@, tag@, id@),
{
    let mut out = join4(".", name, tag, id);
    out.push_str(".tmp");
    out
}

/// Files that were replaced hold their new contents, each its own, and every other file
/// is as it was.
pub proof fn replaced_files_hold_their_contents(
    before: Files,
    places: Seq<Places>,
    contents: Seq<Seq<u8>>,
    j: int,
    path: Seq<char>,
)
    requires
        separate(before, places),
        0 <= j < places.len(),
        forall|k: int| 0 <= k < places.len() ==> (#[trigger] places[k]).target != path,
    ensures
        ({
            let after = replaced(before, places, contents, places.len() as int);
            &&& after.contains_key(places[j].target)
            &&& after[places[j].target] == contents[j]
            &&& after.contains_key(path) == before.contains_key(path)
            &&& after.contains_key(path) ==> after[path] == before[path]
        }),
{
    lemma_replaced(before, places, contents, places.len() as int);
    let after = replaced(before, places, contents, places.len() as int);
    assert(at(after, places[j].target) == Some(contents[j]));
    assert(at(after, path) == at(before, path));
}

/// A step on the file system does what its name says: what is written is there, what is
/// renamed is at its new place and not at the old one, what is removed is gone, and
/// every other file stays.
pub proof fn file_steps_do_what_they_say(
    files: Files,
    from: Seq<char>,
    to: Seq<char>,
    content: Seq<u8>,
    other: Seq<char>,
)
    requires
        other != from,
        other != to,
        from != to,
    ensures
        at(stepped(files, FileStep::Write { path: from, content }), from) == Some(content),
        at(stepped(files, FileStep::Write { path: from, content }), other) == at(files, other),
        at(stepped(files, FileStep::Remove { path: from }), from) is None,
        at(stepped(files, FileStep::Remove { path: from }), other) == at(files, other),
        files.contains_key(from) ==> at(stepped(files, FileStep::Rename { from, to }), to) == at(
            files,
            from,
        ) && at(stepped(files, FileStep::Rename { from, to }), from) is None,
        at(stepped(files, FileStep::Rename { from, to }), other) == at(files, other),
{
}

} // verus!
