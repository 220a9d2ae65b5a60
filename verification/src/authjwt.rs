//! Registration for the API: who may get a token, what the token claims,
//! and what is answered.

use crate::json::{json_quoted, quote};
use crate::response::{Response, StatusCode};
use crate::text::{push_char, str_eq};
use vstd::prelude::*;
use vstd::string::*;

verus! {

/// Why no token is given or accepted.
#[derive(Clone, Copy, Debug, PartialEq, Eq, Structural)]
pub enum AuthError {
    InvalidToken,
    TokenCreation,
    Registration,
}

/// The body of a successful registration.
#[derive(Debug)]
pub struct AuthBody {
    pub access_token: String,
    pub token_type: String,
}

/// A request for a token.
#[derive(Debug)]
pub struct Registration {
    pub full_name: String,
    pub email: String,
    pub password: String,
}

/// What a token claims: who issued it, for whom, and until when, in
/// seconds since 1970.
#[derive(Debug)]
pub struct Claims {
    pub iss: String,
    pub sub: String,
    pub exp: u64,
}

/// The issuer of every token.
pub open spec fn issuer() -> Seq<char> {
    "knock-knock.po8.org"@
}

/// The subject of a token: the name, and the address in angle brackets.
pub open spec fn subject(full_name: Seq<char>, email: Seq<char>) -> Seq<char> {
    full_name + " <"@ + email + ">"@
}

/// How long a token is good for, in seconds: one day.
pub const TOKEN_LIFETIME: i64 = 86400;

/// The decimal digit `d`.
pub open spec fn digit(d: int) -> char {
    if d == 0 {
        '0'
    } else if d == 1 {
        '1'
    } else if d == 2 {
        '2'
    } else if d == 3 {
        '3'
    } else if d == 4 {
        '4'
    } else if d == 5 {
        '5'
    } else if d == 6 {
        '6'
    } else if d == 7 {
        '7'
    } else if d == 8 {
        '8'
    } else {
        '9'
    }
}

/// The three decimal digits of a status code.
pub open spec fn status_digits(code: u16) -> Seq<char> {
    seq![digit(code as int / 100), digit(code as int / 10 % 10), digit(code as int % 10)]
}

/// The decimal digit `d` as a character.
fn digit_char(d: u16) -> (c: char)
    requires
        d < 10,
    ensures
        c == digit(d as int),
{
    if d == 0 {
        '0'
    } else if d == 1 {
        '1'
    } else if d == 2 {
        '2'
    } else if d == 3 {
        '3'
    } else if d == 4 {
        '4'
    } else if d == 5 {
        '5'
    } else if d == 6 {
        '6'
    } else if d == 7 {
        '7'
    } else if d == 8 {
        '8'
    } else {
        '9'
    }
}

impl AuthError {
    /// The status that the error is answered with.
    pub open spec fn status_of(self) -> u16 {
        match self {
            AuthError::Registration => 401,
            AuthError::TokenCreation => 500,
            AuthError::InvalidToken => 401,
        }
    }

    /// The sentence that the error is answered with.
    pub open spec fn sentence_of(self) -> Seq<char> {
        match self {
            AuthError::Registration => "Invalid registration"@,
            AuthError::TokenCreation => "Token creation error"@,
            AuthError::InvalidToken => "Invalid token"@,
        }
    }

    /// The body that the error is answered with: a JSON object with the
    /// sentence and the number of the status.
    pub open spec fn body_of(self) -> Seq<char> {
        "{\"error\":"@ + json_quoted(self.sentence_of()) + ",\"status\":"@ + status_digits(
            self.status_of(),
        ) + "}"@
    }

    /// The status that the error is answered with.
    pub fn status(&self) -> (r: StatusCode)
        ensures
            r@ == self.status_of(),
    {
        match self {
            AuthError::Registration => StatusCode::unauthorized(),
            AuthError::TokenCreation => StatusCode::internal_server_error(),
            AuthError::InvalidToken => StatusCode::unauthorized(),
        }
    }

    /// The sentence that the error is answered with.
    pub fn sentence(&self) -> (r: &'static str)
        ensures
            r@ == self.sentence_of(),
    {
        match self {
            AuthError::Registration => "Invalid registration",
            AuthError::TokenCreation => "Token creation error",
            AuthError::InvalidToken => "Invalid token",
        }
    }

    /// The answer to a request that failed with this error.
    pub fn into_response(self) -> (r: Response)
        ensures
            r.status@ == self.status_of(),
            r.body@ == self.body_of(),
    {
        let status = self.status();
        let code: u16 = status.as_u16();
        let mut body = "{\"error\":".to_owned();
        body.append(quote(self.sentence()).as_str());
        body.append(",\"status\":");
        let ghost head = body@;
        push_char(&mut body, digit_char(code / 100));
        push_char(&mut body, digit_char(code / 10 % 10));
        push_char(&mut body, digit_char(code % 10));
        assert(body@ =~= head + status_digits(code));
        body.append("}");
        Response { status, body }
    }
}

impl AuthBody {
    /// The body for the token `access_token`, which is a bearer token.
    pub fn new(access_token: String) -> (r: Self)
        ensures
            r.access_token == access_token,
            r.token_type@ == "Bearer"@,
    {
        Self { access_token, token_type: "Bearer".to_owned() }
    }

    /// The body as JSON.
    pub open spec fn body_of(self) -> Seq<char> {
        "{\"access_token\":"@ + json_quoted(self.access_token@) + ",\"token_type\":"@
            + json_quoted(self.token_type@) + "}"@
    }

    /// The answer to a registration that succeeded.
    pub fn into_response(self) -> (r: Response)
        ensures
            r.status@ == 200,
            r.body@ == self.body_of(),
    {
        let mut body = "{\"access_token\":".to_owned();
        body.append(quote(self.access_token.as_str()).as_str());
        body.append(",\"token_type\":");
        body.append(quote(self.token_type.as_str()).as_str());
        body.append("}");
        Response { status: StatusCode::ok(), body }
    }
}

/// What `make_claims` returned, as plain values.
pub open spec fn claimed(r: Result<Claims, AuthError>) -> Result<(Seq<char>, Seq<char>, u64), AuthError> {
    match r {
        Ok(c) => Ok((c.iss@, c.sub@, c.exp)),
        Err(e) => Err(e),
    }
}

/// What `make_claims` owes: a wrong password is refused; otherwise the token
/// is issued for the name and address, and is good for one day from `now`.
/// A moment so far from 1970 that the day after it cannot be counted in
/// seconds gives no token.
pub open spec fn claims_spec(
    reg_key: Seq<char>,
    full_name: Seq<char>,
    email: Seq<char>,
    password: Seq<char>,
    now: i64,
) -> Result<(Seq<char>, Seq<char>, u64), AuthError> {
    if password != reg_key {
        Err(AuthError::Registration)
    } else if now + TOKEN_LIFETIME < 0 || now + TOKEN_LIFETIME > i64::MAX {
        Err(AuthError::TokenCreation)
    } else {
        Ok((issuer(), subject(full_name, email), (now + TOKEN_LIFETIME) as u64))
    }
}

/// The claims of the token for `registration`, where its password is the
/// registration key. `now` is the present moment in seconds since 1970.
pub fn make_claims(reg_key: &str, registration: &Registration, now: i64) -> (r: Result<
    Claims,
    AuthError,
>)
    ensures
        claimed(r) == claims_spec(
            reg_key@,
            registration.full_name@,
            registration.email@,
            registration.password@,
            now,
        ),
{
    if !str_eq(registration.password.as_str(), reg_key) {
        return Err(AuthError::Registration);
    }
    let exp: u64 = match now.checked_add(TOKEN_LIFETIME) {
        Some(t) => if t < 0 {
            return Err(AuthError::TokenCreation);
        } else {
            t as u64
        },
        None => {
            return Err(AuthError::TokenCreation);
        },
    };
    let iss = "knock-knock.po8.org".to_owned();
    let mut sub = registration.full_name.clone();
    sub.append(" <");
    sub.append(registration.email.as_str());
    sub.append(">");
    Ok(Claims { iss, sub, exp })
}

impl AuthBody {
    /// The result of a registration once its claims were handed to be
    /// signed: `token` is the signed token, or nothing where signing failed.
    pub fn from_signing(token: Option<String>) -> (r: Result<AuthBody, AuthError>)
        ensures
            match token {
                Some(t) => r matches Ok(body) && body.access_token == t && body.token_type@
                    == "Bearer"@,
                None => r == Err::<AuthBody, AuthError>(AuthError::TokenCreation),
            },
    {
        match token {
            Some(t) => Ok(AuthBody::new(t)),
            None => Err(AuthError::TokenCreation),
        }
    }
}

} // verus!
