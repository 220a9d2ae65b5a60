//! What the library answers a request with: a status code and a body, as
//! plain values for the web layer to send.

use crate::json::{err_json, err_to_json, json_quoted, quote};
use crate::jokebase::JokeBaseErr;
use crate::model::ErrView;
use vstd::prelude::*;
use vstd::string::*;

verus! {

/// The line that a status code is shown with: the number, a space and the
/// reason phrase, as the `http` crate writes it.
pub uninterp spec fn status_line(code: u16) -> Seq<char>;

/// Trusted: `http::StatusCode::from_u16`, which accepts the codes from 100
/// to 999 and no others, and the `Display` of the status code it returns.
/// The contract names the text that is written.
#[verifier::external_body]
fn status_text(code: u16) -> (r: Option<String>)
    ensures
        r is Some <==> 100 <= code <= 999,
        r matches Some(s) ==> s@ == status_line(code),
{
    axum::http::StatusCode::from_u16(code).ok().map(|s| s.to_string())
}

/// An HTTP status code: a number from 100 to 999.
#[derive(Clone, Copy, Debug)]
pub struct StatusCode {
    code: u16,
}

impl View for StatusCode {
    type V = u16;

    closed spec fn view(&self) -> u16 {
        self.code
    }
}

impl StatusCode {
    #[verifier::type_invariant]
    spec fn in_range(self) -> bool {
        100 <= self.code <= 999
    }

    /// The status code with this number, where there is one.
    pub fn from_u16(code: u16) -> (r: Option<StatusCode>)
        ensures
            r is Some <==> 100 <= code <= 999,
            r matches Some(s) ==> s@ == code,
    {
        if 100 <= code && code <= 999 {
            Some(StatusCode { code })
        } else {
            None
        }
    }

    /// The number of the status code.
    pub fn as_u16(&self) -> (code: u16)
        ensures
            code == self@,
            100 <= code <= 999,
    {
        proof {
            use_type_invariant(self);
        }
        self.code
    }

    /// 200
    pub fn ok() -> (r: StatusCode)
        ensures
            r@ == 200,
    {
        StatusCode { code: 200 }
    }

    /// 201
    pub fn created() -> (r: StatusCode)
        ensures
            r@ == 201,
    {
        StatusCode { code: 201 }
    }

    /// 204
    pub fn no_content() -> (r: StatusCode)
        ensures
            r@ == 204,
    {
        StatusCode { code: 204 }
    }

    /// 400
    pub fn bad_request() -> (r: StatusCode)
        ensures
            r@ == 400,
    {
        StatusCode { code: 400 }
    }

    /// 401
    pub fn unauthorized() -> (r: StatusCode)
        ensures
            r@ == 401,
    {
        StatusCode { code: 401 }
    }

    /// 404
    pub fn not_found() -> (r: StatusCode)
        ensures
            r@ == 404,
    {
        StatusCode { code: 404 }
    }

    /// 422
    pub fn unprocessable_entity() -> (r: StatusCode)
        ensures
            r@ == 422,
    {
        StatusCode { code: 422 }
    }

    /// 500
    pub fn internal_server_error() -> (r: StatusCode)
        ensures
            r@ == 500,
    {
        StatusCode { code: 500 }
    }

    /// The line that the status code is shown with.
    pub fn line(&self) -> (r: String)
        ensures
            r@ == status_line(self@),
    {
        proof {
            use_type_invariant(self);
        }
        match status_text(self.code) {
            Some(s) => s,
            None => String::new(),
        }
    }
}

/// An answer: a status code and a body.
#[derive(Debug)]
pub struct Response {
    pub status: StatusCode,
    pub body: String,
}

/// An error of the store together with the status it is answered with.
#[derive(Debug)]
pub struct JokeBaseError {
    pub status: StatusCode,
    pub error: JokeBaseErr,
}

/// The body that an error is answered with: a JSON object with the status
/// line and the error.
pub open spec fn error_body(status: u16, error: ErrView) -> Seq<char> {
    "{\"status\":"@ + json_quoted(status_line(status)) + ",\"error\":"@ + err_json(error) + "}"@
}

impl JokeBaseError {
    /// The body that the error is answered with.
    pub fn body(&self) -> (r: String)
        ensures
            r@ == error_body(self.status@, self.error@),
    {
        let mut r = "{\"status\":".to_owned();
        r.append(quote(self.status.line().as_str()).as_str());
        r.append(",\"error\":");
        r.append(err_to_json(&self.error).as_str());
        r.append("}");
        r
    }

    /// The answer to a request that failed with `error`: the given status,
    /// and the status line and the error as a JSON body.
    pub fn response(status: StatusCode, error: JokeBaseErr) -> (r: Response)
        ensures
            r.status@ == status@,
            r.body@ == error_body(status@, error@),
    {
        let error = JokeBaseError { status, error };
        let body = error.body();
        Response { status, body }
    }
}

} // verus!
