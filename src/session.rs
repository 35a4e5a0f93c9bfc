//! The session: at most one connection pool, held only while logged in.

use vstd::prelude::*;
use crate::model::AuthResponse;
use crate::validate::{Fault, ValidationError};

verus! {

/// Logged out, or logged in with the pool that the login opened.
///
/// Holding the pool inside the logged-in state means that a pool without a
/// login, or a login without a pool, cannot be represented.
pub enum Session<P> {
    Unauthenticated,
    Authenticated(P),
}

/// How a login attempt ended on the network side.
pub enum ConnectOutcome<P> {
    /// No pool could be opened with the credentials.
    ConnectFailed,
    /// A pool was opened but failed its probes; it must be closed.
    Rejected(P),
    /// A pool was opened and passed every probe.
    Verified(P),
}

/// The one answer to every failed login after the local checks. It names
/// neither the step that failed nor anything of the schema.
pub const AUTH_FAILED_MESSAGE: &'static str = "Authentication failed. Please check your credentials and permissions.";

/// The pool held by a session, if any.
pub open spec fn held<P>(s: Session<P>) -> Option<P> {
    match s {
        Session::Unauthenticated => None,
        Session::Authenticated(p) => Some(p),
    }
}

impl<P> Session<P> {
    /// A session in which nobody is logged in.
    pub fn new() -> (r: Session<P>)
        ensures
            r is Unauthenticated,
    {
        Session::Unauthenticated
    }

    /// Whether a login is in force.
    pub fn is_authenticated(&self) -> (r: bool)
        ensures
            r == self is Authenticated,
    {
        match self {
            Session::Unauthenticated => false,
            Session::Authenticated(_) => true,
        }
    }

    /// The pool to run a data operation on, or `AuthenticationRequired`.
    pub fn pool(&self) -> (r: Result<&P, ValidationError>)
        ensures
            match *self {
                Session::Unauthenticated => r matches Err(e) && e@ == Fault::AuthenticationRequired,
                Session::Authenticated(p) => r == Ok::<&P, ValidationError>(&p),
            },
    {
        match self {
            Session::Unauthenticated => Err(ValidationError::AuthenticationRequired),
            Session::Authenticated(p) => Ok(p),
        }
    }

    /// Records how a login ended. Only a verified pool changes the session; it
    /// replaces any pool held before. Every failure gets the same answer, so
    /// that a caller cannot tell bad credentials from missing permissions. Returns the answer for the caller and the
    /// pool, if any, that the caller must now close: the one replaced, or the
    /// rejected new one.
    pub fn finish_authentication(&mut self, outcome: ConnectOutcome<P>) -> (r: (
        AuthResponse,
        Option<P>,
    ))
        ensures
            !r.0.success ==> *final(self) == *old(self),
            r.0.success <==> outcome is Verified,
            match outcome {
                ConnectOutcome::ConnectFailed => r.1 is None && r.0.message@ == AUTH_FAILED_MESSAGE@,
                ConnectOutcome::Rejected(p) => r.1 == Some(p) && r.0.message@ == AUTH_FAILED_MESSAGE@,
                ConnectOutcome::Verified(p) => *final(self) == Session::Authenticated(p) && r.1
                    == held(*old(self)) && r.0.message@ == "Authentication successful"@,
            },
    {
        match outcome {
            ConnectOutcome::ConnectFailed => (
                AuthResponse {
                    success: false,
                    message: String::from_str(AUTH_FAILED_MESSAGE),
                },
                None,
            ),
            ConnectOutcome::Rejected(p) => (
                AuthResponse {
                    success: false,
                    message: String::from_str(AUTH_FAILED_MESSAGE),
                },
                Some(p),
            ),
            ConnectOutcome::Verified(p) => {
                let mut previous = Session::Authenticated(p);
                std::mem::swap(self, &mut previous);
                let replaced = match previous {
                    Session::Unauthenticated => None,
                    Session::Authenticated(q) => Some(q),
                };
                (
                    AuthResponse {
                        success: true,
                        message: String::from_str("Authentication successful"),
                    },
                    replaced,
                )
            },
        }
    }

    /// Ends the login, if any. Always succeeds; returns the pool that the
    /// caller must now close, if one was held.
    pub fn logout(&mut self) -> (r: (AuthResponse, Option<P>))
        ensures
            *final(self) is Unauthenticated,
            r.1 == held(*old(self)),
            r.0.success,
            r.0.message@ == "Logged out successfully"@,
    {
        let mut previous = Session::Unauthenticated;
        std::mem::swap(self, &mut previous);
        let released = match previous {
            Session::Unauthenticated => None,
            Session::Authenticated(q) => Some(q),
        };
        (AuthResponse { success: true, message: String::from_str("Logged out successfully") }, released)
    }
}

} // verus!
