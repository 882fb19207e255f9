//! The failures that the library reports.
use crate::text::joined;
use vstd::prelude::*;

verus! {

/// A failure of a store, cache or generation operation.
#[derive(Debug, Clone, PartialEq, Eq)]
pub enum CoreError {
    /// Generation was asked for while no model is loaded.
    NotLoaded,
    /// The configured model file does not exist; carries its path.
    ModelNotFound(String),
    /// No conversation has this identifier.
    NotFound(String),
    /// A session operation needs an active session and none is set.
    NoActiveSession,
    /// A role name that is none of the known roles.
    InvalidRole(String),
    /// The store refused an operation; carries the reason.
    Store(String),
    /// The backend could not tokenize the conversation.
    Tokenize(String),
    /// The backend could not decode a batch.
    Decode(String),
}

impl CoreError {
    /// A sentence that describes the failure.
    pub fn message(&self) -> (r: String)
        ensures
            self is NotLoaded ==> r@ == "No model is loaded. Call load_model() first."@,
            self matches CoreError::ModelNotFound(p) ==> r@ == "Model file not found: "@ + p@,
            self matches CoreError::NotFound(id) ==> r@ == "Session not found: "@ + id@,
            self is NoActiveSession ==> r@ == "No active session"@,
            self matches CoreError::InvalidRole(x) ==> r@ == "Invalid message role: "@ + x@,
            self matches CoreError::Store(x) ==> r@ == "Store error: "@ + x@,
            self matches CoreError::Tokenize(x) ==> r@ == "Tokenize error: "@ + x@,
            self matches CoreError::Decode(x) ==> r@ == "Decode error: "@ + x@,
    {
        match self {
            CoreError::NotLoaded => String::from_str("No model is loaded. Call load_model() first."),
            CoreError::ModelNotFound(p) => joined("Model file not found: ", p.as_str()),
            CoreError::NotFound(id) => joined("Session not found: ", id.as_str()),
            CoreError::NoActiveSession => String::from_str("No active session"),
            CoreError::InvalidRole(x) => joined("Invalid message role: ", x.as_str()),
            CoreError::Store(x) => joined("Store error: ", x.as_str()),
            CoreError::Tokenize(x) => joined("Tokenize error: ", x.as_str()),
            CoreError::Decode(x) => joined("Decode error: ", x.as_str()),
        }
    }
}

} // verus!
