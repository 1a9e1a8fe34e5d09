//! Errors of the node registry.

use crate::error::prefixed;
use vstd::prelude::*;
use vstd::string::*;

verus! {

/// Why the registry refuses a request.
#[derive(Debug)]
pub enum RegistryError {
    NodeNotFound(String),
    InsufficientNodes(String),
    NodeAlreadyExists(String),
    InvalidNode(String),
}

/// The status code of a remote call that was refused.
#[derive(Debug, Clone, Copy, PartialEq, Eq, Structural)]
pub enum StatusCode {
    NotFound,
    Unavailable,
    AlreadyExists,
    InvalidArgument,
}

impl RegistryError {
    /// The message shown for the error.
    pub open spec fn text(&self) -> Seq<char> {
        match self {
            RegistryError::NodeNotFound(m) => "Node not found: "@ + m@,
            RegistryError::InsufficientNodes(m) => "Insufficient nodes: "@ + m@,
            RegistryError::NodeAlreadyExists(m) => "Node already registered: "@ + m@,
            RegistryError::InvalidNode(m) => "Invalid node data: "@ + m@,
        }
    }

    /// The message shown for the error.
    pub fn to_string(&self) -> (s: String)
        ensures
            s@ == self.text(),
    {
        match self {
            RegistryError::NodeNotFound(m) => prefixed("Node not found: ", m),
            RegistryError::InsufficientNodes(m) => prefixed("Insufficient nodes: ", m),
            RegistryError::NodeAlreadyExists(m) => prefixed("Node already registered: ", m),
            RegistryError::InvalidNode(m) => prefixed("Invalid node data: ", m),
        }
    }

    /// The status code and the message with which a remote call is refused.
    pub open spec fn status_spec(&self) -> (StatusCode, Seq<char>) {
        match self {
            RegistryError::NodeNotFound(m) => (StatusCode::NotFound, m@),
            RegistryError::InsufficientNodes(m) => (StatusCode::Unavailable, m@),
            RegistryError::NodeAlreadyExists(m) => (StatusCode::AlreadyExists, m@),
            RegistryError::InvalidNode(m) => (StatusCode::InvalidArgument, m@),
        }
    }

    /// The status code and the message with which a remote call is refused.
    pub fn status(self) -> (r: (StatusCode, String))
        ensures
            (r.0, r.1@) == self.status_spec(),
    {
        match self {
            RegistryError::NodeNotFound(m) => (StatusCode::NotFound, m),
            RegistryError::InsufficientNodes(m) => (StatusCode::Unavailable, m),
            RegistryError::NodeAlreadyExists(m) => (StatusCode::AlreadyExists, m),
            RegistryError::InvalidNode(m) => (StatusCode::InvalidArgument, m),
        }
    }
}

/// A refusal says what kind it is and passes the message on: each kind has a status of its own.
pub proof fn refusals_have_their_status(e: RegistryError)
    ensures
        e is NodeNotFound <==> e.status_spec().0 == StatusCode::NotFound,
        e is InsufficientNodes <==> e.status_spec().0 == StatusCode::Unavailable,
        e is NodeAlreadyExists <==> e.status_spec().0 == StatusCode::AlreadyExists,
        e is InvalidNode <==> e.status_spec().0 == StatusCode::InvalidArgument,
        e matches RegistryError::NodeNotFound(m) ==> e.status_spec().1 == m@,
        e matches RegistryError::InsufficientNodes(m) ==> e.status_spec().1 == m@,
        e matches RegistryError::NodeAlreadyExists(m) ==> e.status_spec().1 == m@,
        e matches RegistryError::InvalidNode(m) ==> e.status_spec().1 == m@,
{
}

}
