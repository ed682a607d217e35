//! Version negotiation and the checks before a message is handled.
use vstd::prelude::*;

use crate::protocol::message::{
    current_version, Message, ProtocolVersion, CURRENT_MAJOR, CURRENT_MINOR,
};
use crate::words::{decimal, decimal_text, join3, join4};

verus! {

/// The version that both sides have settled on.
#[derive(Clone, Copy, Debug, PartialEq, Eq, Structural)]
pub struct NegotiatedVersion(pub ProtocolVersion);

#[derive(Clone, Copy, Debug, PartialEq, Eq, Structural)]
pub enum DispatchError {
    MajorVersion { local: u8, peer: u8 },
    FrameVersion { expected_major: u8, expected_minor: u8, actual_major: u8, actual_minor: u8 },
    NotNegotiated,
}

/// A version as it is written.
pub open spec fn version_text(major: u8, minor: u8) -> Seq<char> {
    decimal(major as nat) + "."@ + decimal(minor as nat)
}

/// What an error says.
pub open spec fn dispatch_error_text(error: DispatchError) -> Seq<char> {
    match error {
        DispatchError::MajorVersion { local, peer } => "protocol major mismatch: local "@ + decimal(
            local as nat,
        ) + ", peer "@ + decimal(peer as nat),
        DispatchError::FrameVersion {
            expected_major,
            expected_minor,
            actual_major,
            actual_minor,
        } => "frame version mismatch: expected "@ + version_text(expected_major, expected_minor)
            + ", got "@ + version_text(actual_major, actual_minor),
        DispatchError::NotNegotiated => "message received before protocol negotiation"@,
    }
}

fn write_version(major: u8, minor: u8) -> (text: String)
    ensures
        text@ == version_text(major, minor),
{
    let major = decimal_text(major as u64);
    let minor = decimal_text(minor as u64);
    join3(major.as_str(), ".", minor.as_str())
}

impl DispatchError {
    pub fn text(self) -> (text: String)
        ensures
            text@ == dispatch_error_text(self),
    {
        match self {
            DispatchError::MajorVersion { local, peer } => {
                let local = decimal_text(local as u64);
                let peer = decimal_text(peer as u64);
                join4(
                    "protocol major mismatch: local ",
                    local.as_str(),
                    ", peer ",
                    peer.as_str(),
                )
            },
            DispatchError::FrameVersion {
                expected_major,
                expected_minor,
                actual_major,
                actual_minor,
            } => {
                let expected = write_version(expected_major, expected_minor);
                let actual = write_version(actual_major, actual_minor);
                join4(
                    "frame version mismatch: expected ",
                    expected.as_str(),
                    ", got ",
                    actual.as_str(),
                )
            },
            DispatchError::NotNegotiated => "message received before protocol negotiation".to_owned(),
        }
    }
}

/// The lower of two minor versions.
pub open spec fn common_minor(local: u8, peer: u8) -> u8 {
    if local <= peer {
        local
    } else {
        peer
    }
}

fn negotiate_minor(local: u8, peer: u8) -> (minor: u8)
    ensures
        minor == common_minor(local, peer),
{
    if local <= peer {
        local
    } else {
        peer
    }
}

/// The version that two sides settle on: the same major version, and the lower of
/// the minor versions.
pub open spec fn negotiated(local: ProtocolVersion, peer: ProtocolVersion) -> Result<
    NegotiatedVersion,
    DispatchError,
> {
    if local.major != peer.major {
        Err(DispatchError::MajorVersion { local: local.major, peer: peer.major })
    } else {
        Ok(
            NegotiatedVersion(
                ProtocolVersion {
                    major: local.major,
                    minor: common_minor(local.minor, peer.minor),
                },
            ),
        )
    }
}

/// Both sides settle on the same version, and one that both speak.
pub proof fn negotiation_is_symmetric(local: ProtocolVersion, peer: ProtocolVersion)
    ensures
        negotiated(local, peer) is Ok <==> negotiated(peer, local) is Ok,
        negotiated(local, peer) is Ok ==> negotiated(local, peer)->Ok_0 == negotiated(
            peer,
            local,
        )->Ok_0 && negotiated(local, peer)->Ok_0.0.minor <= local.minor && negotiated(
            local,
            peer,
        )->Ok_0.0.minor <= peer.minor,
{
}

/// Settles on a version with a peer; fails on another major version.
pub fn negotiate(peer: ProtocolVersion) -> (r: Result<NegotiatedVersion, DispatchError>)
    ensures
        r == negotiated(current_version(), peer),
{
    if peer.major != CURRENT_MAJOR {
        return Err(
            DispatchError::MajorVersion { local: CURRENT_MAJOR, peer: peer.major },
        );
    }
    Ok(
        NegotiatedVersion(
            ProtocolVersion {
                major: CURRENT_MAJOR,
                minor: negotiate_minor(CURRENT_MINOR, peer.minor),
            },
        ),
    )
}

/// Checks that a frame carries the version that was settled on.
pub fn validate_frame_version(
    actual: ProtocolVersion,
    negotiated: NegotiatedVersion,
) -> (r: Result<(), DispatchError>)
    ensures
        r is Ok <==> actual == negotiated.0,
        r is Err ==> r->Err_0 == (DispatchError::FrameVersion {
            expected_major: negotiated.0.major,
            expected_minor: negotiated.0.minor,
            actual_major: actual.major,
            actual_minor: actual.minor,
        }),
{
    if actual != negotiated.0 {
        return Err(
            DispatchError::FrameVersion {
                expected_major: negotiated.0.major,
                expected_minor: negotiated.0.minor,
                actual_major: actual.major,
                actual_minor: actual.minor,
            },
        );
    }
    Ok(())
}

/// Checks that a message may be handled: greetings always, others only under the
/// current major version.
pub fn validate_for_dispatch(message: &Message, negotiated: NegotiatedVersion) -> (r: Result<
    (),
    DispatchError,
>)
    ensures
        r is Ok <==> message is Hello || message is HelloAck || negotiated.0.major
            == CURRENT_MAJOR,
        r is Err ==> r->Err_0 == DispatchError::NotNegotiated,
{
    match message {
        Message::Hello { .. } => Ok(()),
        Message::HelloAck { .. } => Ok(()),
        _ => if negotiated.0.major != CURRENT_MAJOR {
            Err(DispatchError::NotNegotiated)
        } else {
            Ok(())
        },
    }
}

/// Two sides of the same major version settle on it and on the lower of their minor
/// versions, which is the version of one of them; sides of different major versions
/// settle on none.
pub proof fn negotiation_takes_the_lower_minor(local: ProtocolVersion, peer: ProtocolVersion)
    ensures
        local.major == peer.major <==> negotiated(local, peer) is Ok,
        negotiated(local, peer) matches Ok(v) ==> v.0.major == local.major && v.0.major
            == peer.major && (local.minor <= peer.minor ==> v.0.minor == local.minor) && (peer.minor
            <= local.minor ==> v.0.minor == peer.minor),
        local.major != peer.major ==> negotiated(local, peer) == Err::<
            NegotiatedVersion,
            DispatchError,
        >(DispatchError::MajorVersion { local: local.major, peer: peer.major }),
        negotiated(local, local) == Ok::<NegotiatedVersion, DispatchError>(NegotiatedVersion(local)),
{
}

} // verus!
