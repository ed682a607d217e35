//! Requests and the context that they are made in.
use vstd::prelude::*;

use crate::encoding::{is_random_uuid, random_uuid};

verus! {

#[derive(Clone, Copy, Debug, PartialEq, Eq, Hash, Structural)]
pub struct WorkspaceEpoch(pub u64);

#[derive(Clone, Copy, Debug, PartialEq, Eq, Hash, Structural)]
pub struct EnvironmentEpoch(pub u64);

#[derive(Clone, Copy, Debug, PartialEq, Eq, Hash, Structural)]
pub struct DocumentRevision(pub u64);

/// Where a request is carried out.
#[derive(Debug, PartialEq, Eq, Hash)]
pub enum ExecutionContextV1 {
    AuthorityRoot,
    DevContainer { container_id: String, environment_epoch: EnvironmentEpoch },
}

/// What an execution context says.
pub enum ContextView {
    AuthorityRoot,
    DevContainer { container_id: Seq<char>, environment_epoch: EnvironmentEpoch },
}

impl View for ExecutionContextV1 {
    type V = ContextView;

    open spec fn view(&self) -> ContextView {
        match self {
            ExecutionContextV1::AuthorityRoot => ContextView::AuthorityRoot,
            ExecutionContextV1::DevContainer { container_id, environment_epoch } =>
                ContextView::DevContainer {
                container_id: container_id@,
                environment_epoch: *environment_epoch,
            },
        }
    }
}

impl Clone for ExecutionContextV1 {
    fn clone(&self) -> (copy: Self)
        ensures
            copy == *self,
    {
        match self {
            ExecutionContextV1::AuthorityRoot => ExecutionContextV1::AuthorityRoot,
            ExecutionContextV1::DevContainer { container_id, environment_epoch } =>
                ExecutionContextV1::DevContainer {
                container_id: container_id.clone(),
                environment_epoch: *environment_epoch,
            },
        }
    }
}

impl ExecutionContextV1 {
    /// Whether two contexts are the same.
    pub fn same(&self, other: &Self) -> (same: bool)
        ensures
            same == (self@ == other@),
    {
        match (self, other) {
            (ExecutionContextV1::AuthorityRoot, ExecutionContextV1::AuthorityRoot) => true,
            (
                ExecutionContextV1::DevContainer { container_id: a, environment_epoch: x },
                ExecutionContextV1::DevContainer { container_id: b, environment_epoch: y },
            ) => *a == *b && *x == *y,
            _ => false,
        }
    }
}

/// A request with what it is tagged by. The identifier is the bits of a UUID.
#[derive(Debug, PartialEq, Eq)]
pub struct RequestEnvelope<T> {
    pub request_id: u128,
    pub workspace_epoch: WorkspaceEpoch,
    pub environment_epoch: EnvironmentEpoch,
    pub document_revision: Option<DocumentRevision>,
    pub execution_context: ExecutionContextV1,
    pub payload: T,
}

impl<T> RequestEnvelope<T> {
    /// A request at the root of the authority, under a fresh random identifier.
    pub fn authority_root(
        payload: T,
        workspace_epoch: WorkspaceEpoch,
        environment_epoch: EnvironmentEpoch,
    ) -> (envelope: Self)
        ensures
            is_random_uuid(envelope.request_id),
            envelope.workspace_epoch == workspace_epoch,
            envelope.environment_epoch == environment_epoch,
            envelope.document_revision is None,
            envelope.execution_context == ExecutionContextV1::AuthorityRoot,
            envelope.payload == payload,
    {
        RequestEnvelope {
            request_id: random_uuid(),
            workspace_epoch,
            environment_epoch,
            document_revision: None,
            execution_context: ExecutionContextV1::AuthorityRoot,
            payload,
        }
    }
}

/// A program to run, with its arguments, directory and environment. Each
/// environment name occurs once.
#[derive(Debug, PartialEq, Eq)]
pub struct CommandSpec {
    pub program: String,
    pub args: Vec<String>,
    pub cwd: String,
    pub env: Vec<(String, String)>,
}

/// Whether a text holds the NUL character.
pub open spec fn has_nul(text: Seq<char>) -> bool {
    text.contains('\0')
}

/// Whether a text holds a character.
pub fn holds_char(text: &str, c: char) -> (found: bool)
    ensures
        found == text@.contains(c),
{
    let chars = crate::text::chars_of(text);
    for i in 0..chars.len()
        invariant
            chars@ == text@,
            forall|j: int| 0 <= j < i ==> chars@[j] != c,
    {
        if chars[i] == c {
            assert(text@[i as int] == c);
            return true;
        }
    }
    false
}

/// Whether one of several texts holds the NUL character.
pub fn any_nul(texts: &Vec<String>) -> (found: bool)
    ensures
        found == exists|i: int| 0 <= i < texts@.len() && has_nul(#[trigger] texts@[i]@),
{
    for i in 0..texts.len()
        invariant
            forall|j: int| 0 <= j < i ==> !has_nul(#[trigger] texts@[j]@),
    {
        if holds_char(texts[i].as_str(), '\0') {
            return true;
        }
    }
    false
}

/// Whether an environment entry can be passed to a program: its name is not
/// empty and holds no `=`, and neither part holds NUL.
pub open spec fn env_entry_ok(entry: (String, String)) -> bool {
    &&& entry.0@.len() > 0
    &&& !entry.0@.contains('=')
    &&& !has_nul(entry.0@)
    &&& !has_nul(entry.1@)
}

/// What is wrong with a command: an empty program, an empty directory, or a NUL
/// or bad environment entry.
pub enum CommandFault {
    EmptyProgram,
    EmptyDirectory,
    BadByte,
}

pub open spec fn command_fault(spec_of: CommandSpec) -> Option<CommandFault> {
    if spec_of.program@.len() == 0 {
        Some(CommandFault::EmptyProgram)
    } else if spec_of.cwd@.len() == 0 {
        Some(CommandFault::EmptyDirectory)
    } else if has_nul(spec_of.program@) || has_nul(spec_of.cwd@) || (exists|i: int|
        0 <= i < spec_of.args@.len() && has_nul(#[trigger] spec_of.args@[i]@)) || (exists|i: int|
        0 <= i < spec_of.env@.len() && !env_entry_ok(#[trigger] spec_of.env@[i])) {
        Some(CommandFault::BadByte)
    } else {
        None
    }
}

pub open spec fn command_fault_text(fault: CommandFault) -> Seq<char> {
    match fault {
        CommandFault::EmptyProgram => "program must not be empty"@,
        CommandFault::EmptyDirectory => "cwd must not be empty"@,
        CommandFault::BadByte => "command contains an invalid NUL byte or environment key"@,
    }
}

impl CommandSpec {
    /// Checks that the command can be run, and says what is wrong with it.
    pub fn validate(&self) -> (r: Result<(), &'static str>)
        ensures
            match command_fault(*self) {
                None => r is Ok,
                Some(fault) => r is Err && r->Err_0@ == command_fault_text(fault),
            },
    {
        if self.program.as_str().is_empty() {
            return Err("program must not be empty");
        }
        if self.cwd.as_str().is_empty() {
            return Err("cwd must not be empty");
        }
        let mut bad = holds_char(self.program.as_str(), '\0') || holds_char(
            self.cwd.as_str(),
            '\0',
        ) || any_nul(&self.args);
        let mut i: usize = 0;
        while !bad && i < self.env.len()
            invariant
                i <= self.env@.len(),
                !bad ==> forall|j: int| 0 <= j < i ==> env_entry_ok(#[trigger] self.env@[j]),
                bad ==> has_nul(self.program@) || has_nul(self.cwd@) || (exists|j: int|
                    0 <= j < self.args@.len() && has_nul(#[trigger] self.args@[j]@)) || (exists|
                    j: int,
                |
                    0 <= j < self.env@.len() && !env_entry_ok(#[trigger] self.env@[j])),
                !bad ==> !has_nul(self.program@) && !has_nul(self.cwd@) && !(exists|j: int|
                    0 <= j < self.args@.len() && has_nul(#[trigger] self.args@[j]@)),
            decreases self.env@.len() - i + if bad { 0int } else { 1int },
        {
            let entry = &self.env[i];
            let ok = !entry.0.as_str().is_empty() && !holds_char(entry.0.as_str(), '=')
                && !holds_char(entry.0.as_str(), '\0') && !holds_char(entry.1.as_str(), '\0');
            if ok {
                i += 1;
            } else {
                assert(!env_entry_ok(self.env@[i as int]));
                bad = true;
            }
        }
        if bad {
            return Err("command contains an invalid NUL byte or environment key");
        }
        Ok(())
    }
}

/// A command can be run if and only if its program and its directory are named, nothing
/// of it holds NUL, and each name of its environment is one.
pub proof fn commands_are_checked(command: CommandSpec)
    ensures
        command_fault(command) is None <==> command.program@.len() > 0 && command.cwd@.len() > 0
            && !command.program@.contains('\0') && !command.cwd@.contains('\0') && (forall|i: int|
            0 <= i < command.args@.len() ==> !has_nul(#[trigger] command.args@[i]@)) && (forall|
            i: int,
        |
            0 <= i < command.env@.len() ==> (#[trigger] command.env@[i]).0@.len() > 0
                && !command.env@[i].0@.contains('=') && !command.env@[i].0@.contains('\0')
                && !command.env@[i].1@.contains('\0')),
        forall|text: Seq<char>| #[trigger] has_nul(text) <==> text.contains('\0'),
{
    if forall|i: int|
        0 <= i < command.env@.len() ==> (#[trigger] command.env@[i]).0@.len() > 0
            && !command.env@[i].0@.contains('=') && !command.env@[i].0@.contains('\0')
            && !command.env@[i].1@.contains('\0') {
        assert forall|i: int| 0 <= i < command.env@.len() implies env_entry_ok(
            #[trigger] command.env@[i],
        ) by {}
    } else {
        let i = choose|i: int|
            0 <= i < command.env@.len() && !((#[trigger] command.env@[i]).0@.len() > 0
                && !command.env@[i].0@.contains('=') && !command.env@[i].0@.contains('\0')
                && !command.env@[i].1@.contains('\0'));
        assert(!env_entry_ok(command.env@[i]));
    }
}

} // verus!
