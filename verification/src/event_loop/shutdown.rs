//! How a run ends, whatever ends it.
use vstd::prelude::*;

verus! {

/// Why a run ended.
#[derive(Clone, Copy, Debug, PartialEq, Eq, Structural)]
pub enum ShutdownReason {
    Normal,
    FatalWorker,
    Signal,
}

/// What ends a run.
#[derive(Clone, Copy, Debug, PartialEq, Eq, Structural)]
pub enum ShutdownCause {
    Quit,
    /// No more input can come.
    InputLost,
    /// Another part of the program asks for the end.
    Asked(ShutdownReason),
    /// Nobody can ask for the end any more.
    AskerLost,
}

/// Why a run ended, by what ended it.
pub open spec fn reason_of(cause: ShutdownCause) -> ShutdownReason {
    match cause {
        ShutdownCause::Quit => ShutdownReason::Normal,
        ShutdownCause::InputLost => ShutdownReason::FatalWorker,
        ShutdownCause::Asked(reason) => reason,
        ShutdownCause::AskerLost => ShutdownReason::FatalWorker,
    }
}

/// What is done next to end a run.
#[derive(Debug, PartialEq, Eq)]
pub enum ShutdownStep {
    /// Hand everything that the journal could not take yet to it.
    SubmitRetained,
    SaveState,
    FlushJournal,
    Finish(Result<ShutdownReason, String>),
}

/// A run that is being ended.
#[derive(Debug, PartialEq, Eq)]
pub struct Shutdown {
    pub reason: ShutdownReason,
    /// How many steps are done.
    pub done: u8,
    /// Why the state could not be saved.
    pub error: Option<String>,
}

impl Shutdown {
    /// Begins to end a run.
    pub fn begin(cause: ShutdownCause) -> (s: Self)
        ensures
            s == (Shutdown { reason: reason_of(cause), done: 0, error: None }),
    {
        Shutdown {
            reason: match cause {
                ShutdownCause::Quit => ShutdownReason::Normal,
                ShutdownCause::InputLost => ShutdownReason::FatalWorker,
                ShutdownCause::Asked(reason) => reason,
                ShutdownCause::AskerLost => ShutdownReason::FatalWorker,
            },
            done: 0,
            error: None,
        }
    }

    /// The next step: the journal is given what was retained, the state is saved,
    /// the journal is flushed, and only then the run finishes.
    pub fn next(&mut self) -> (step: ShutdownStep)
        requires
            old(self).done <= 3,
        ensures
            step == shutdown_step(*old(self)),
            *final(self) == (Shutdown {
                done: if old(self).done < 3 {
                    (old(self).done + 1) as u8
                } else {
                    3
                },
                ..*old(self)
            }),
    {
        let step = match self.done {
            0 => ShutdownStep::SubmitRetained,
            1 => ShutdownStep::SaveState,
            2 => ShutdownStep::FlushJournal,
            _ => match &self.error {
                Some(e) => ShutdownStep::Finish(Err(e.clone())),
                None => ShutdownStep::Finish(Ok(self.reason)),
            },
        };
        if self.done < 3 {
            self.done = self.done + 1;
        }
        step
    }

    /// Keeps why the state could not be saved, until the run finishes.
    pub fn state_not_saved(&mut self, error: String)
        ensures
            *final(self) == (Shutdown { error: Some(error), ..*old(self) }),
    {
        self.error = Some(error);
    }
}

/// What is done next.
pub open spec fn shutdown_step(s: Shutdown) -> ShutdownStep {
    if s.done == 0 {
        ShutdownStep::SubmitRetained
    } else if s.done == 1 {
        ShutdownStep::SaveState
    } else if s.done == 2 {
        ShutdownStep::FlushJournal
    } else {
        ShutdownStep::Finish(
            match s.error {
                Some(e) => Err(e),
                None => Ok(s.reason),
            },
        )
    }
}

/// A run finishes, with an error or without, only after everything retained was
/// submitted, saving the state was tried, and the journal was flushed.
pub proof fn runs_finish_after_cleaning_up(s: Shutdown)
    requires
        s.done <= 3,
        shutdown_step(s) is Finish,
    ensures
        s.done == 3,
        forall|k: u8|
            k < s.done ==> {
                let step = #[trigger] shutdown_step(Shutdown { done: k, ..s });
                &&& k == 0 ==> step == ShutdownStep::SubmitRetained
                &&& k == 1 ==> step == ShutdownStep::SaveState
                &&& k == 2 ==> step == ShutdownStep::FlushJournal
            },
        s.error is Some ==> shutdown_step(s) == ShutdownStep::Finish(Err(s.error->0)),
{
}

/// A run that was quit ended normally, one that was asked to end did for the reason that
/// was given, and one that lost its input or its asker did not end normally. The reason
/// is told unless saving the state failed, which is told then.
pub proof fn runs_end_for_their_reason(reason: ShutdownReason, s: Shutdown)
    ensures
        reason_of(ShutdownCause::Quit) == ShutdownReason::Normal,
        reason_of(ShutdownCause::Asked(reason)) == reason,
        reason_of(ShutdownCause::InputLost) == ShutdownReason::FatalWorker,
        reason_of(ShutdownCause::AskerLost) == ShutdownReason::FatalWorker,
        s.done >= 3 && s.error is None ==> shutdown_step(s) == ShutdownStep::Finish(Ok(s.reason)),
        s.done >= 3 ==> (s.error matches Some(e) ==> shutdown_step(s) == ShutdownStep::Finish(
            Err(e),
        )),
{
}

} // verus!
