//! What the library reads out of an error of the database driver.

use crate::jokebase::JokeBaseErr;
use crate::transaction::Event;
use vstd::prelude::*;

verus! {

/// Trusted: `sqlx::Error`, the error type of the database driver. It is
/// carried through as it is; nothing is known of what it holds.
#[verifier::external_type_specification]
#[verifier::external_body]
pub struct ExSqlxError(sqlx::Error);

/// Trusted: `sqlx::Error::as_database_error`, and `DatabaseError::code` on
/// what it returns. Nothing is claimed of the code: which errors carry one
/// is the database's affair.
#[verifier::external_body]
fn error_code(e: &sqlx::Error) -> (code: Option<String>) {
    e.as_database_error().and_then(|d| d.code()).map(|c| c.into_owned())
}

/// Trusted: the `Display` of `sqlx::Error`. Nothing is claimed of the text.
#[verifier::external_body]
fn error_text(e: &sqlx::Error) -> (text: String) {
    e.to_string()
}

/// The outcome that a statement which failed with `e` is reported with:
/// the SQLSTATE code of `e`, where it has one, and its text.
pub fn failed(e: &sqlx::Error) -> (event: Event)
    ensures
        event@ is Failed,
{
    Event::Failed { code: error_code(e), message: error_text(e) }
}

/// The error that a failure of the database outside a statement is
/// reported with: `DatabaseError` with its text.
pub fn database_error(e: &sqlx::Error) -> (r: JokeBaseErr)
    ensures
        r@ is DatabaseError,
{
    JokeBaseErr::DatabaseError(error_text(e))
}

impl From<sqlx::Error> for JokeBaseErr {
    fn from(e: sqlx::Error) -> (r: JokeBaseErr)
        ensures
            r@ is DatabaseError,
    {
        database_error(&e)
    }
}

impl vstd::std_specs::convert::FromSpecImpl<sqlx::Error> for JokeBaseErr {
    open spec fn obeys_from_spec() -> bool {
        false
    }

    open spec fn from_spec(e: sqlx::Error) -> JokeBaseErr {
        arbitrary()
    }
}

} // verus!
