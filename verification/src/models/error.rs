//! Why the proxy refuses a call.

use crate::json::{decimal, push_decimal};
use vstd::prelude::*;
use vstd::string::StringExecFns;

verus! {

/// The reasons for which a call is refused. A refused call changes nothing.
#[derive(Debug, Clone, Copy, PartialEq, Eq, Structural)]
pub enum ProxyError {
    /// The call is reserved to the proxy's own account.
    NotOwner,
    /// The caller is not a registered agent.
    CallerNotAgent,
    /// The agent was not given the portfolio it wants to act on.
    AgentNotAssigned,
    /// No agent is registered under the name given.
    AgentNotFound,
    /// The portfolio has no record.
    UserNotFound,
    /// The batch holds an intent that the flow does not allow.
    FlowViolation,
    /// The hash handed in is not `0x` followed by an even number of
    /// hexadecimal digits.
    MalformedHash,
    /// The hash handed in has this many bytes, and not 32.
    HashLength(usize),
    /// The hash handed in is not the hash of the batch.
    HashMismatch,
}

/// The classes of refusal.
#[derive(Debug, Clone, Copy, PartialEq, Eq, Structural)]
pub enum ErrorKind {
    /// The caller lacks the right to do what it asks.
    Authorization,
    /// What was handed in is malformed or not allowed.
    Validation,
    /// What was handed in does not match what was computed from it.
    Integrity,
}

impl ProxyError {
    pub open spec fn spec_kind(self) -> ErrorKind {
        match self {
            ProxyError::NotOwner => ErrorKind::Authorization,
            ProxyError::CallerNotAgent => ErrorKind::Authorization,
            ProxyError::AgentNotAssigned => ErrorKind::Authorization,
            ProxyError::AgentNotFound => ErrorKind::Authorization,
            ProxyError::UserNotFound => ErrorKind::Authorization,
            ProxyError::FlowViolation => ErrorKind::Validation,
            ProxyError::MalformedHash => ErrorKind::Validation,
            ProxyError::HashLength(_) => ErrorKind::Validation,
            ProxyError::HashMismatch => ErrorKind::Integrity,
        }
    }

    /// The class that the reason belongs to.
    #[verifier::when_used_as_spec(spec_kind)]
    pub fn kind(self) -> (kind: ErrorKind)
        ensures
            kind == self.spec_kind(),
    {
        match self {
            ProxyError::NotOwner => ErrorKind::Authorization,
            ProxyError::CallerNotAgent => ErrorKind::Authorization,
            ProxyError::AgentNotAssigned => ErrorKind::Authorization,
            ProxyError::AgentNotFound => ErrorKind::Authorization,
            ProxyError::UserNotFound => ErrorKind::Authorization,
            ProxyError::FlowViolation => ErrorKind::Validation,
            ProxyError::MalformedHash => ErrorKind::Validation,
            ProxyError::HashLength(_) => ErrorKind::Validation,
            ProxyError::HashMismatch => ErrorKind::Integrity,
        }
    }

    pub open spec fn spec_message(self) -> Seq<char> {
        match self {
            ProxyError::NotOwner => "Only contract owner can register agents"@,
            ProxyError::CallerNotAgent => "Caller is not an agent"@,
            ProxyError::AgentNotAssigned => "Agent is not assigned to this portfolio!"@,
            ProxyError::AgentNotFound => "Agent not found"@,
            ProxyError::UserNotFound => "User not found"@,
            ProxyError::FlowViolation => "Only TokenDiff is allowed in balance_portfolio!"@,
            ProxyError::MalformedHash => "Decoding hex failed"@,
            ProxyError::HashLength(n) => "Expected a Vec of length 32 but got "@ + decimal(n as nat),
            ProxyError::HashMismatch => "Hash mismatch!"@,
        }
    }

    /// The reason in words.
    pub fn message(self) -> (text: String)
        ensures
            text@ == self.spec_message(),
    {
        let head: &str = match self {
            ProxyError::NotOwner => "Only contract owner can register agents",
            ProxyError::CallerNotAgent => "Caller is not an agent",
            ProxyError::AgentNotAssigned => "Agent is not assigned to this portfolio!",
            ProxyError::AgentNotFound => "Agent not found",
            ProxyError::UserNotFound => "User not found",
            ProxyError::FlowViolation => "Only TokenDiff is allowed in balance_portfolio!",
            ProxyError::MalformedHash => "Decoding hex failed",
            ProxyError::HashLength(_) => "Expected a Vec of length 32 but got ",
            ProxyError::HashMismatch => "Hash mismatch!",
        };
        let mut text = String::from_str(head);
        if let ProxyError::HashLength(n) = self {
            push_decimal(&mut text, n as u128);
        }
        text
    }
}

} // verus!
