//! The answers that the Desk gives in place of a page.
use vstd::prelude::*;

verus! {

/// Where a request without a session is sent.
pub const LOGIN_PATH: &'static str = "/login";

/// How long a refused client is asked to wait, in seconds. Short and honest: a
/// request is shed because work is queued, and that clears in seconds.
pub const BUSY_RETRY_SECS: u64 = 2;

/// An answer in place of a page.
#[derive(Debug, PartialEq, Eq)]
pub enum Refusal {
    /// Go to another page first.
    Redirect(String),
    /// The server is at capacity: come back after so many seconds. A different
    /// fact from "you sent too many", which is the kernel's to say.
    Busy(u64),
    /// The request cannot be served as it stands.
    BadRequest(String),
    /// Something failed, in words for the user.
    Internal(String),
}

/// What a refusal says.
pub enum RefusalView {
    Redirect(Seq<char>),
    Busy(nat),
    BadRequest(Seq<char>),
    Internal(Seq<char>),
}

impl View for Refusal {
    type V = RefusalView;

    open spec fn view(&self) -> RefusalView {
        match *self {
            Refusal::Redirect(path) => RefusalView::Redirect(path@),
            Refusal::Busy(secs) => RefusalView::Busy(secs as nat),
            Refusal::BadRequest(words) => RefusalView::BadRequest(words@),
            Refusal::Internal(words) => RefusalView::Internal(words@),
        }
    }
}

/// The HTTP status that a refusal is answered with.
pub open spec fn status_of(refusal: RefusalView) -> int {
    match refusal {
        RefusalView::Redirect(_) => 307,
        RefusalView::Busy(_) => 503,
        RefusalView::BadRequest(_) => 400,
        RefusalView::Internal(_) => 500,
    }
}

/// The refusal that sends a request to the login page.
pub open spec fn to_login() -> RefusalView {
    RefusalView::Redirect(LOGIN_PATH@)
}

/// The refusal of a Desk at capacity.
pub open spec fn at_capacity() -> RefusalView {
    RefusalView::Busy(BUSY_RETRY_SECS as nat)
}

impl Refusal {
    /// The HTTP status that this is answered with.
    pub fn status(&self) -> (status: u16)
        ensures
            status == status_of(self@),
    {
        match self {
            Refusal::Redirect(_) => 307,
            Refusal::Busy(_) => 503,
            Refusal::BadRequest(_) => 400,
            Refusal::Internal(_) => 500,
        }
    }

    /// Sends the request to the login page.
    pub fn login() -> (refusal: Refusal)
        ensures
            refusal@ == to_login(),
    {
        Refusal::Redirect(LOGIN_PATH.to_string())
    }

    /// Says that the server is at capacity.
    pub fn busy() -> (refusal: Refusal)
        ensures
            refusal@ == at_capacity(),
    {
        Refusal::Busy(BUSY_RETRY_SECS)
    }
}

} // verus!
