//! What can go wrong with a request, and what the caller is told.

use vstd::prelude::*;
use vstd::string::*;

verus! {

/// Why a request failed. Nothing in it holds a viewing key or a memo.
#[derive(Debug)]
pub enum ScanError {
    /// The request did not carry the shared secret.
    Unauthorized,
    /// The request cannot be served as it stands; the text says why.
    BadRequest(String),
    /// The lightwalletd server failed or sent something unusable.
    Upstream,
    /// The scan itself failed.
    Internal,
}

pub enum ScanErrorView {
    Unauthorized,
    BadRequest(Seq<char>),
    Upstream,
    Internal,
}

impl View for ScanError {
    type V = ScanErrorView;

    open spec fn view(&self) -> ScanErrorView {
        match self {
            ScanError::Unauthorized => ScanErrorView::Unauthorized,
            ScanError::BadRequest(m) => ScanErrorView::BadRequest(m@),
            ScanError::Upstream => ScanErrorView::Upstream,
            ScanError::Internal => ScanErrorView::Internal,
        }
    }
}

impl ScanErrorView {
    /// The HTTP status that reports the error.
    pub open spec fn status(self) -> u16 {
        match self {
            ScanErrorView::Unauthorized => 401,
            ScanErrorView::BadRequest(_) => 400,
            ScanErrorView::Upstream => 502,
            ScanErrorView::Internal => 500,
        }
    }

    /// The coarse category of the error.
    pub open spec fn code(self) -> Seq<char> {
        match self {
            ScanErrorView::Unauthorized => "unauthorized"@,
            ScanErrorView::BadRequest(_) => "bad_request"@,
            ScanErrorView::Upstream => "upstream_error"@,
            ScanErrorView::Internal => "internal_error"@,
        }
    }

    /// What the caller is told: the reason for a bad request, the bare category otherwise.
    pub open spec fn message(self) -> Seq<char> {
        match self {
            ScanErrorView::BadRequest(m) => m,
            _ => self.code(),
        }
    }

    /// The error in words.
    pub open spec fn description(self) -> Seq<char> {
        match self {
            ScanErrorView::Unauthorized => "unauthorized"@,
            ScanErrorView::BadRequest(m) => "bad request: "@ + m,
            ScanErrorView::Upstream => "upstream lightwalletd error"@,
            ScanErrorView::Internal => "scan failed"@,
        }
    }
}

/// The parts of the HTTP response that reports an error.
#[derive(Debug)]
pub struct ErrorResponse {
    pub status: u16,
    pub error: String,
    pub message: String,
}

impl ScanError {
    /// The response for this error: its status, its category and its message.
    pub fn into_response(self) -> (r: ErrorResponse)
        ensures
            r.status == self@.status(),
            r.error@ == self@.code(),
            r.message@ == self@.message(),
    {
        let (status, code): (u16, &str) = match &self {
            ScanError::Unauthorized => (401, "unauthorized"),
            ScanError::BadRequest(_) => (400, "bad_request"),
            ScanError::Upstream => (502, "upstream_error"),
            ScanError::Internal => (500, "internal_error"),
        };
        let message: String = match &self {
            ScanError::BadRequest(m) => m.clone(),
            _ => code.to_owned(),
        };
        ErrorResponse { status, error: code.to_owned(), message }
    }

    /// The error in words.
    pub fn description(&self) -> (r: String)
        ensures
            r@ == self@.description(),
    {
        match self {
            ScanError::Unauthorized => "unauthorized".to_owned(),
            ScanError::BadRequest(m) => "bad request: ".to_owned().concat(m.as_str()),
            ScanError::Upstream => "upstream lightwalletd error".to_owned(),
            ScanError::Internal => "scan failed".to_owned(),
        }
    }
}

/// Two errors of one category, neither of them a bad request, are reported alike: such a
/// response says nothing about where or on what the request failed.
pub proof fn only_bad_requests_explain_themselves(a: ScanErrorView, b: ScanErrorView)
    requires
        a.code() == b.code(),
        !(a is BadRequest),
        !(b is BadRequest),
    ensures
        a.status() == b.status(),
        a.message() == b.message(),
{
    reveal_strlit("unauthorized");
    reveal_strlit("upstream_error");
    reveal_strlit("internal_error");
    assert("unauthorized"@.len() == 12 && "upstream_error"@.len() == 14);
    assert("upstream_error"@[0] == 'u' && "internal_error"@[0] == 'i');
    assert(a.code()[0] == b.code()[0] && a.code().len() == b.code().len());
}

} // verus!
