//! Protocol versions, message classes and the messages themselves.
use vstd::prelude::*;
use vstd::std_specs::convert::TryFromSpecImpl;

use crate::protocol::frame::FrameError;
use crate::protocol::fs::FsMessage;
use crate::protocol::lsp::LspV1;
use crate::protocol::process::ProcessMessage;
use crate::protocol::pty::PtyMessage;

verus! {

#[derive(Clone, Copy, Debug, PartialEq, Eq, Structural)]
pub struct ProtocolVersion {
    pub major: u8,
    pub minor: u8,
}

pub const CURRENT_MAJOR: u8 = 1;

pub const CURRENT_MINOR: u8 = 0;

/// The version that this side speaks.
#[verifier::allow_in_spec]
pub fn current_version() -> ProtocolVersion
    returns
        (ProtocolVersion { major: CURRENT_MAJOR, minor: CURRENT_MINOR }),
{
    ProtocolVersion { major: CURRENT_MAJOR, minor: CURRENT_MINOR }
}

/// The family of a message, one byte of the frame header.
#[derive(Clone, Copy, Debug, PartialEq, Eq, Hash, Structural)]
pub enum MessageClass {
    Control,
    Pty,
    Fs,
    Process,
    Lsp,
    Git,
    Container,
    Relay,
}

/// The byte that stands for a class.
pub open spec fn class_code(class: MessageClass) -> u8 {
    match class {
        MessageClass::Control => 0,
        MessageClass::Pty => 1,
        MessageClass::Fs => 2,
        MessageClass::Process => 3,
        MessageClass::Lsp => 4,
        MessageClass::Git => 5,
        MessageClass::Container => 6,
        MessageClass::Relay => 7,
    }
}

/// The class that a byte stands for; bytes from eight on stand for none.
pub open spec fn class_of_code(value: u8) -> Result<MessageClass, FrameError> {
    match value {
        0 => Ok(MessageClass::Control),
        1 => Ok(MessageClass::Pty),
        2 => Ok(MessageClass::Fs),
        3 => Ok(MessageClass::Process),
        4 => Ok(MessageClass::Lsp),
        5 => Ok(MessageClass::Git),
        6 => Ok(MessageClass::Container),
        7 => Ok(MessageClass::Relay),
        _ => Err(FrameError::UnknownClass(value)),
    }
}

/// Each class has a byte of its own, and the byte gives it back.
pub proof fn class_code_round_trip(class: MessageClass)
    ensures
        class_of_code(class_code(class)) == Ok::<MessageClass, FrameError>(class),
{
}

impl MessageClass {
    /// The byte that stands for the class.
    pub fn code(self) -> (value: u8)
        ensures
            value == class_code(self),
    {
        match self {
            MessageClass::Control => 0,
            MessageClass::Pty => 1,
            MessageClass::Fs => 2,
            MessageClass::Process => 3,
            MessageClass::Lsp => 4,
            MessageClass::Git => 5,
            MessageClass::Container => 6,
            MessageClass::Relay => 7,
        }
    }
}

impl TryFrom<u8> for MessageClass {
    type Error = FrameError;

    fn try_from(value: u8) -> (r: Result<Self, FrameError>) {
        match value {
            0 => Ok(MessageClass::Control),
            1 => Ok(MessageClass::Pty),
            2 => Ok(MessageClass::Fs),
            3 => Ok(MessageClass::Process),
            4 => Ok(MessageClass::Lsp),
            5 => Ok(MessageClass::Git),
            6 => Ok(MessageClass::Container),
            7 => Ok(MessageClass::Relay),
            unknown => Err(FrameError::UnknownClass(unknown)),
        }
    }
}

impl TryFromSpecImpl<u8> for MessageClass {
    open spec fn obeys_try_from_spec() -> bool {
        true
    }

    open spec fn try_from_spec(value: u8) -> Result<Self, FrameError> {
        class_of_code(value)
    }
}

#[derive(Debug, PartialEq, Eq)]
pub struct ExtensionMessage {
    pub family_version: u16,
    pub kind: String,
    pub body: Vec<u8>,
}

#[derive(Debug, PartialEq, Eq)]
pub enum Message {
    Hello { version: ProtocolVersion },
    HelloAck { version: ProtocolVersion },
    Pty(PtyMessage),
    Fs(FsMessage),
    Process(ProcessMessage),
    Lsp(LspV1),
    Git(ExtensionMessage),
    Container(ExtensionMessage),
    Relay(ExtensionMessage),
}

/// The class that a message belongs to.
pub open spec fn message_class(message: Message) -> MessageClass {
    match message {
        Message::Hello { .. } => MessageClass::Control,
        Message::HelloAck { .. } => MessageClass::Control,
        Message::Pty(_) => MessageClass::Pty,
        Message::Fs(_) => MessageClass::Fs,
        Message::Process(_) => MessageClass::Process,
        Message::Lsp(_) => MessageClass::Lsp,
        Message::Git(_) => MessageClass::Git,
        Message::Container(_) => MessageClass::Container,
        Message::Relay(_) => MessageClass::Relay,
    }
}

impl Message {
    pub fn class(&self) -> (class: MessageClass)
        ensures
            class == message_class(*self),
    {
        match self {
            Message::Hello { .. } => MessageClass::Control,
            Message::HelloAck { .. } => MessageClass::Control,
            Message::Pty(_) => MessageClass::Pty,
            Message::Fs(_) => MessageClass::Fs,
            Message::Process(_) => MessageClass::Process,
            Message::Lsp(_) => MessageClass::Lsp,
            Message::Git(_) => MessageClass::Git,
            Message::Container(_) => MessageClass::Container,
            Message::Relay(_) => MessageClass::Relay,
        }
    }
}

/// The classes have the codes of the wire: control messages zero, then terminals, files,
/// programs, language servers, version control, containers and relays, one after the
/// other; no other code stands for a class. Each message is of the class of its family.
pub proof fn classes_have_their_codes(code: u8, message: Message)
    ensures
        class_of_code(0) == Ok::<MessageClass, FrameError>(MessageClass::Control),
        class_of_code(1) == Ok::<MessageClass, FrameError>(MessageClass::Pty),
        class_of_code(2) == Ok::<MessageClass, FrameError>(MessageClass::Fs),
        class_of_code(3) == Ok::<MessageClass, FrameError>(MessageClass::Process),
        class_of_code(4) == Ok::<MessageClass, FrameError>(MessageClass::Lsp),
        class_of_code(5) == Ok::<MessageClass, FrameError>(MessageClass::Git),
        class_of_code(6) == Ok::<MessageClass, FrameError>(MessageClass::Container),
        class_of_code(7) == Ok::<MessageClass, FrameError>(MessageClass::Relay),
        code >= 8 ==> class_of_code(code) == Err::<MessageClass, FrameError>(
            FrameError::UnknownClass(code),
        ),
        message is Hello || message is HelloAck ==> message_class(message) == MessageClass::Control,
        message is Pty ==> message_class(message) == MessageClass::Pty,
        message is Fs ==> message_class(message) == MessageClass::Fs,
        message is Process ==> message_class(message) == MessageClass::Process,
        message is Lsp ==> message_class(message) == MessageClass::Lsp,
        message is Git ==> message_class(message) == MessageClass::Git,
        message is Container ==> message_class(message) == MessageClass::Container,
        message is Relay ==> message_class(message) == MessageClass::Relay,
{
}

} // verus!
