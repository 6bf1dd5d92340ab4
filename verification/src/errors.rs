//! The failures a request can end in.

use vstd::prelude::*;

verus! {

/// What went wrong while a request was handled.
#[derive(Clone, Copy, Debug, PartialEq, Eq, Structural)]
pub enum WebdevErrorKind {
    /// The store failed, or a row that was just inserted could not be read back.
    Database,
    /// A query parameter or a body was not of the expected form.
    Format,
    /// A body was required and none came with the request.
    FormatInvalidBody,
    /// No route matched, or no row has the requested id.
    NotFound,
}

/// A failure, tagged with its kind.
#[derive(Clone, Copy, Debug, PartialEq, Eq, Structural)]
pub struct WebdevError {
    pub kind: WebdevErrorKind,
}

impl WebdevError {
    /// The HTTP status that a failure of the given kind is answered with.
    pub open spec fn status_of(kind: WebdevErrorKind) -> u16 {
        match kind {
            WebdevErrorKind::Format => 400,
            WebdevErrorKind::FormatInvalidBody => 400,
            WebdevErrorKind::NotFound => 404,
            WebdevErrorKind::Database => 500,
        }
    }

    pub fn new(kind: WebdevErrorKind) -> (error: WebdevError)
        ensures
            error.kind == kind,
    {
        WebdevError { kind }
    }

    pub fn kind(&self) -> (kind: WebdevErrorKind)
        ensures
            kind == self.kind,
    {
        self.kind
    }

    /// The HTTP status this failure is answered with.
    pub fn status_code(&self) -> (code: u16)
        ensures
            code == Self::status_of(self.kind),
    {
        match self.kind {
            WebdevErrorKind::Format => 400,
            WebdevErrorKind::FormatInvalidBody => 400,
            WebdevErrorKind::NotFound => 404,
            WebdevErrorKind::Database => 500,
        }
    }
}

} // verus!
