//! What each route of the API answers to the result of a store operation.

use crate::joke::{Joke, JokeView};
use crate::jokebase::{done, found, joke_views, JokeBaseErr};
use crate::json::{err_json, err_to_json, joke_json, joke_to_json, list_json, list_to_json};
use crate::model::ErrView;
use crate::response::{error_body, JokeBaseError, Response, StatusCode};
use vstd::prelude::*;
use vstd::string::*;

verus! {

/// An answer as plain values: the number of the status, and the body.
pub open spec fn reply(r: Response) -> (u16, Seq<char>) {
    (r.status@, r.body@)
}

/// What a route that returns one joke owes: the joke as JSON with status
/// 200, or the error with status 204.
pub open spec fn joke_reply(looked: Result<JokeView, ErrView>) -> (u16, Seq<char>) {
    match looked {
        Ok(j) => (200, joke_json(j)),
        Err(e) => (204, error_body(204, e)),
    }
}

/// The answer of the routes that return one joke, picked at random or
/// looked up by its id.
pub fn joke(looked: Result<Joke, JokeBaseErr>) -> (r: Response)
    ensures
        reply(r) == joke_reply(found(looked)),
{
    match looked {
        Ok(j) => Response { status: StatusCode::ok(), body: joke_to_json(&j) },
        Err(e) => JokeBaseError::response(StatusCode::no_content(), e),
    }
}

/// What listing returned, as plain values.
pub open spec fn listed(r: Result<Vec<Joke>, JokeBaseErr>) -> Result<Seq<JokeView>, ErrView> {
    match r {
        Ok(v) => Ok(joke_views(v@)),
        Err(e) => Err(e@),
    }
}

/// The body of the route that lists the jokes: the result itself as JSON,
/// a list under `Ok` or an error under `Err`.
pub open spec fn jokes_body(all: Result<Seq<JokeView>, ErrView>) -> Seq<char> {
    match all {
        Ok(list) => "{\"Ok\":"@ + list_json(list) + "}"@,
        Err(e) => "{\"Err\":"@ + err_json(e) + "}"@,
    }
}

/// The answer of the route that lists the jokes. Its status is always 200.
pub fn jokes(all: Result<Vec<Joke>, JokeBaseErr>) -> (r: Response)
    ensures
        reply(r) == (200u16, jokes_body(listed(all))),
{
    let mut body: String;
    match all {
        Ok(list) => {
            body = "{\"Ok\":".to_owned();
            body.append(list_to_json(&list).as_str());
        },
        Err(e) => {
            body = "{\"Err\":".to_owned();
            body.append(err_to_json(&e).as_str());
        },
    }
    body.append("}");
    Response { status: StatusCode::ok(), body }
}

/// What a route that changes the store owes: an empty body with the status
/// of success, or the error with its status.
pub open spec fn change_reply(changed: Result<(), ErrView>, success: u16, failure: u16) -> (
    u16,
    Seq<char>,
) {
    match changed {
        Ok(_) => (success, Seq::<char>::empty()),
        Err(e) => (failure, error_body(failure, e)),
    }
}

/// The answer of the route that adds a joke: 201, or 400 with the error.
pub fn post_joke(added: Result<(), JokeBaseErr>) -> (r: Response)
    ensures
        reply(r) == change_reply(done(added), 201, 400),
{
    match added {
        Ok(_) => Response { status: StatusCode::created(), body: String::new() },
        Err(e) => JokeBaseError::response(StatusCode::bad_request(), e),
    }
}

/// The answer of the route that deletes a joke: 200, or 400 with the error.
pub fn delete_joke(deleted: Result<(), JokeBaseErr>) -> (r: Response)
    ensures
        reply(r) == change_reply(done(deleted), 200, 400),
{
    match deleted {
        Ok(_) => Response { status: StatusCode::ok(), body: String::new() },
        Err(e) => JokeBaseError::response(StatusCode::bad_request(), e),
    }
}

/// The status that a failed update is answered with: 422 for a payload that
/// cannot be stored, 404 for an empty store, 400 for every other error.
pub open spec fn update_failure(e: ErrView) -> u16 {
    match e {
        ErrView::JokeUnprocessable(_) => 422,
        ErrView::NoJoke => 404,
        _ => 400,
    }
}

/// What the route that updates a joke owes.
pub open spec fn update_reply(updated: Result<(), ErrView>) -> (u16, Seq<char>) {
    match updated {
        Ok(_) => (200, Seq::<char>::empty()),
        Err(e) => (update_failure(e), error_body(update_failure(e), e)),
    }
}

/// The answer of the route that updates a joke.
pub fn update_joke(updated: Result<(), JokeBaseErr>) -> (r: Response)
    ensures
        reply(r) == update_reply(done(updated)),
{
    match updated {
        Ok(_) => Response { status: StatusCode::ok(), body: String::new() },
        Err(JokeBaseErr::JokeUnprocessable(why)) => JokeBaseError::response(
            StatusCode::unprocessable_entity(),
            JokeBaseErr::JokeUnprocessable(why),
        ),
        Err(JokeBaseErr::NoJoke) => JokeBaseError::response(
            StatusCode::not_found(),
            JokeBaseErr::NoJoke,
        ),
        Err(e) => JokeBaseError::response(StatusCode::bad_request(), e),
    }
}

} // verus!
