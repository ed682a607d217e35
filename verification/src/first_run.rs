//! What is set up when the workbench is started for the first time.
use vstd::prelude::*;

verus! {

/// The files that hold what the workbench keeps, and whether each is there.
#[derive(Clone, Copy, Debug, PartialEq, Eq, Structural)]
pub struct KeptFiles {
    pub config: bool,
    pub state: bool,
    pub journal: bool,
}

/// What is written when the workbench starts.
#[derive(Clone, Copy, Debug, PartialEq, Eq, Structural)]
pub struct SetUp {
    pub write_config: bool,
    pub write_state: bool,
    /// An empty journal: there is nothing to recover.
    pub write_journal: bool,
}

/// The files after the set-up.
pub open spec fn after_set_up(files: KeptFiles, set_up: SetUp) -> KeptFiles {
    KeptFiles {
        config: files.config || set_up.write_config,
        state: files.state || set_up.write_state,
        journal: files.journal || set_up.write_journal,
    }
}

/// What is written when the workbench starts: each file that is missing.
pub open spec fn missing(files: KeptFiles) -> SetUp {
    SetUp {
        write_config: !files.config,
        write_state: !files.state,
        write_journal: !files.journal,
    }
}

/// Whether this is a first run: no state was kept.
pub fn is_first_run(state_kept: bool) -> (first: bool)
    ensures
        first == !state_kept,
{
    !state_kept
}

/// What is to be written when the workbench starts.
pub fn ensure_initialized(files: KeptFiles) -> (set_up: SetUp)
    ensures
        set_up == missing(files),
{
    SetUp {
        write_config: !files.config,
        write_state: !files.state,
        write_journal: !files.journal,
    }
}

/// The checkpoints that a new journal starts with: none.
pub fn initialize_welcome_journal() -> (checkpoints: usize)
    ensures
        checkpoints == 0,
{
    0
}

/// Setting up twice is setting up once: afterwards every file is there, and nothing
/// is left to write.
pub proof fn set_up_is_idempotent(files: KeptFiles)
    ensures
        ({
            let after = after_set_up(files, missing(files));
            &&& after.config && after.state && after.journal
            &&& after_set_up(after, missing(after)) == after
            &&& missing(after) == SetUp {
                write_config: false,
                write_state: false,
                write_journal: false,
            }
        }),
{
}

/// Exactly the files that are missing are written: none that is there is written over.
pub proof fn only_missing_files_are_written(files: KeptFiles)
    ensures
        missing(files).write_config <==> !files.config,
        missing(files).write_state <==> !files.state,
        missing(files).write_journal <==> !files.journal,
{
}

} // verus!
