//! The shared secret that the platform presents in a request header.

use vstd::prelude::*;

verus! {

/// The outcome of a request, as an HTTP status.
#[derive(Debug, Clone, Copy, PartialEq, Eq, Structural)]
pub enum StatusCode {
    Success,
    BadRequest,
    InternalServerError,
}

impl StatusCode {
    /// The number of the status.
    pub open spec fn spec_as_u16(self) -> u16 {
        match self {
            StatusCode::Success => 200,
            StatusCode::BadRequest => 400,
            StatusCode::InternalServerError => 500,
        }
    }

    /// The number of the status.
    #[verifier::when_used_as_spec(spec_as_u16)]
    pub fn as_u16(self) -> (code: u16)
        ensures
            code == self.spec_as_u16(),
    {
        match self {
            StatusCode::Success => 200,
            StatusCode::BadRequest => 400,
            StatusCode::InternalServerError => 500,
        }
    }
}

/// The value of the secret-token header of a request.
#[derive(Debug, Clone, PartialEq, Eq)]
pub struct ApiSecretToken(pub String);

impl View for ApiSecretToken {
    type V = Seq<char>;

    open spec fn view(&self) -> Seq<char> {
        self.0@
    }
}

impl ApiSecretToken {
    /// Reads the token from the secret-token header. `header` is `None`
    /// where the request has no such header, `Some(None)` where it has one
    /// whose value is not text, and the text otherwise.
    ///
    /// A request without the header carries no token; a header that is not
    /// text is a bad request.
    pub fn from_request_parts(header: Option<Option<String>>) -> (r: Result<
        Option<ApiSecretToken>,
        StatusCode,
    >)
        ensures
            header is None ==> r == Ok::<Option<ApiSecretToken>, StatusCode>(None),
            header == Some(None::<String>) ==> r == Err::<Option<ApiSecretToken>, StatusCode>(
                StatusCode::BadRequest,
            ),
            header matches Some(Some(token)) ==> r == Ok::<Option<ApiSecretToken>, StatusCode>(
                Some(ApiSecretToken(token)),
            ),
    {
        match header {
            None => Ok(None),
            Some(None) => Err(StatusCode::BadRequest),
            Some(Some(token)) => Ok(Some(ApiSecretToken(token))),
        }
    }

    /// The token as text.
    pub fn as_str(&self) -> (s: &str)
        ensures
            s@ == self@,
    {
        self.0.as_str()
    }
}

} // verus!
