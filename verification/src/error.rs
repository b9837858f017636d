//! The ways in which the library's operations fail.

use vstd::prelude::*;

verus! {

/// Why a datagram is not an issue.
#[derive(Clone, Copy, Debug, PartialEq, Eq, Structural)]
pub enum DecodeError {
    /// The bytes are not well-formed UTF-8.
    InvalidUtf8,
    /// The bars do not cut the text into exactly three fields.
    Framing,
    /// The first field is none of the three kind letters.
    UnknownKind,
    /// The second field is not a base-10 number of 64 bits.
    InvalidId,
}

/// Why a log backend did not do what it was asked.
#[derive(Clone, Copy, Debug, PartialEq, Eq, Structural)]
pub enum BackendError {
    /// Nothing was ever written under the id.
    NotFound,
    /// The backend does not offer the operation.
    Unsupported,
    /// The storage underneath refused or failed.
    Storage,
}

/// Why a transport did not do what it was asked.
#[derive(Clone, Copy, Debug, PartialEq, Eq, Structural)]
pub enum TransportError {
    /// The local endpoint could not be bound.
    Bind,
    /// A datagram could not be sent.
    Send,
    /// No datagram could be received.
    Receive,
}

/// How a message broke the protocol.
#[derive(Clone, Copy, Debug, PartialEq, Eq, Structural)]
pub enum Violation {
    /// The receiver's role does not process issues of this kind.
    WrongKind,
    /// The sender does not play the role that sends issues of this kind.
    WrongSender,
    /// The sender's vote for this proposal was counted before.
    RepeatedVote,
}

/// Why a role or its mailbox did not carry out a step.
#[derive(Clone, Copy, Debug, PartialEq, Eq, Structural)]
pub enum PaxosError {
    /// The mailbox holds no mail.
    EmptyMailBox,
    /// The transport failed.
    TransportFailure(TransportError),
    /// A datagram was not an issue.
    DecodeFailure(DecodeError),
    /// A message came from the wrong role or was of the wrong kind.
    ProtocolViolation(Violation),
    /// A worker saw a proposal that is not newer than the last it voted for.
    ExpiredProposal { id: u64, last: u64 },
    /// A vote was counted, and the proposal still lacks votes.
    NotEnoughVotes { id: u64, votes: usize },
    /// A vote named a proposal that is not open.
    UnknownProposal { id: u64 },
    /// The log backend failed.
    BackendFailure(BackendError),
    /// The master has no proposal number left to assign.
    IdsExhausted,
}

/// Why no configuration could be had.
#[derive(Clone, Copy, Debug, PartialEq, Eq, Structural)]
pub enum ConfigError {
    /// The file could not be read.
    Unreadable,
    /// The file is not a mapping from instance names to configurations.
    Malformed,
    /// The file has no configuration under the name asked for.
    Missing,
}

/// An error that is a message and nothing more.
#[derive(Debug)]
pub struct GeneralError(String);

impl GeneralError {
    /// The message, as characters.
    pub closed spec fn text(&self) -> Seq<char> {
        self.0@
    }

    /// The message.
    pub fn message(&self) -> (r: String)
        ensures
            r@ == self.text(),
    {
        self.0.clone()
    }
}

impl From<String> for GeneralError {
    /// An error with this message.
    fn from(value: String) -> (r: GeneralError)
        ensures
            r.text() == value@,
    {
        GeneralError(value)
    }
}

/// What the conversion returns is stated over views, in its own contract;
/// no value is named for it here.
impl vstd::std_specs::convert::FromSpecImpl<String> for GeneralError {
    open spec fn obeys_from_spec() -> bool {
        false
    }

    open spec fn from_spec(v: String) -> GeneralError {
        arbitrary()
    }
}

impl From<&str> for GeneralError {
    /// An error with this message.
    fn from(value: &str) -> (r: GeneralError)
        ensures
            r.text() == value@,
    {
        GeneralError(value.to_owned())
    }
}

/// What the conversion returns is stated over views, in its own contract;
/// no value is named for it here.
impl vstd::std_specs::convert::FromSpecImpl<&str> for GeneralError {
    open spec fn obeys_from_spec() -> bool {
        false
    }

    open spec fn from_spec(v: &str) -> GeneralError {
        arbitrary()
    }
}

} // verus!
