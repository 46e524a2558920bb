//! Bodies of the session endpoints.

use vstd::prelude::*;

verus! {

/// Answer to creating a session.
#[derive(Debug, Clone)]
pub struct CreateSessionResponse {
    /// Id of the new session.
    pub session_id: String,
}

/// Body of a chat request.
#[derive(Debug, Clone)]
pub struct ChatRequest {
    /// The user's message.
    pub message: String,
}

/// Answer to a (non-streaming) chat request.
#[derive(Debug, Clone)]
pub struct ChatResponse {
    /// Id of the session.
    pub session_id: String,
    /// The agent's whole reply.
    pub reply: String,
}

} // verus!
