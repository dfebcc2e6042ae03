//! What can go wrong behind an admin UI request.

use vstd::prelude::*;

use crate::text::{int_text, push_int_text, push_str};

verus! {

/// Why a request to the admin UI failed.
#[derive(Debug, Clone, PartialEq, Eq)]
pub enum UiError {
    /// No session, or a session the store does not know.
    NotAuthenticated,
    /// The session ran out.
    SessionExpired,
    /// The operator's ACLs do not permit it.
    NotPermitted,
    /// The request itself is wrong; the text says how.
    InvalidRequest(String),
    /// No broker answered.
    BrokerConnection(String),
    /// The broker answered with an error code.
    Broker { code: i16, name: String },
    /// The admin client failed otherwise.
    Admin(String),
}

impl UiError {
    pub open spec fn spec_message(&self) -> Seq<char> {
        match self {
            UiError::NotAuthenticated => "not authenticated"@,
            UiError::SessionExpired => "session expired"@,
            UiError::NotPermitted => "not permitted"@,
            UiError::InvalidRequest(m) => "invalid request: "@ + m@,
            UiError::BrokerConnection(m) => "broker connection failed: "@ + m@,
            UiError::Broker { code, name } => "broker error "@ + name@ + " ("@ + int_text(*code as int) + ")"@,
            UiError::Admin(m) => "admin operation failed: "@ + m@,
        }
    }

    /// The text that a response reports for this error.
    pub fn message(&self) -> (m: String)
        ensures
            m@ == self.spec_message(),
    {
        let mut m = String::new();
        match self {
            UiError::NotAuthenticated => push_str(&mut m, "not authenticated"),
            UiError::SessionExpired => push_str(&mut m, "session expired"),
            UiError::NotPermitted => push_str(&mut m, "not permitted"),
            UiError::InvalidRequest(text) => {
                push_str(&mut m, "invalid request: ");
                push_str(&mut m, text.as_str());
            },
            UiError::BrokerConnection(text) => {
                push_str(&mut m, "broker connection failed: ");
                push_str(&mut m, text.as_str());
            },
            UiError::Broker { code, name } => {
                push_str(&mut m, "broker error ");
                push_str(&mut m, name.as_str());
                push_str(&mut m, " (");
                push_int_text(&mut m, *code as i64);
                push_str(&mut m, ")");
            },
            UiError::Admin(text) => {
                push_str(&mut m, "admin operation failed: ");
                push_str(&mut m, text.as_str());
            },
        }
        m
    }
}

} // verus!
