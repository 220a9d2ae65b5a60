use knock_knock::api;
use knock_knock::joke::Joke;
use knock_knock::jokebase::{JokeBase, JokeBaseErr};
use knock_knock::json::{array_to_json, err_to_json, joke_to_json, list_to_json, to_document};
use knock_knock::response::{JokeBaseError, StatusCode};

fn boo() -> Joke {
    Joke::new("boo", "Boo", "You don't have to cry about it!", &["kids", "oldie"], None)
}

#[test]
fn joke_as_json_omits_missing_fields() {
    let j = Joke::new("a", "b", "c", &[], None);
    assert_eq!(joke_to_json(&j), r#"{"id":"a","whos_there":"b","answer_who":"c"}"#);
}

#[test]
fn joke_as_json_with_every_field() {
    let j = Joke::new("a", "b", "c", &["x", "y"], Some("s"));
    assert_eq!(
        joke_to_json(&j),
        r#"{"id":"a","whos_there":"b","answer_who":"c","tags":["x","y"],"source":"s"}"#
    );
}

#[test]
fn strings_are_escaped() {
    let j = Joke::new("q\"uote", "back\\slash", "line\nbreak\ttab\u{1}", &[], None);
    assert_eq!(
        joke_to_json(&j),
        "{\"id\":\"q\\\"uote\",\"whos_there\":\"back\\\\slash\",\"answer_who\":\"line\\nbreak\\ttab\\u0001\"}"
    );
    let back: serde_json::Value = serde_json::from_str(&joke_to_json(&j)).unwrap();
    assert_eq!(back["id"], "q\"uote");
    assert_eq!(back["whos_there"], "back\\slash");
    assert_eq!(back["answer_who"], "line\nbreak\ttab\u{1}");
}

#[test]
fn array_of_strings() {
    assert_eq!(array_to_json(&Vec::new()), "[]");
    assert_eq!(array_to_json(&vec!["a".to_string()]), r#"["a"]"#);
    assert_eq!(array_to_json(&vec!["a".to_string(), "b\"".to_string()]), r#"["a","b\""]"#);
}

#[test]
fn errors_as_json() {
    assert_eq!(err_to_json(&JokeBaseErr::NoJoke), r#""NoJoke""#);
    assert_eq!(err_to_json(&JokeBaseErr::JokeExists("boo".into())), r#"{"JokeExists":"boo"}"#);
    assert_eq!(
        err_to_json(&JokeBaseErr::JokeBaseIoError("d".into())),
        r#"{"JokeBaseIoError":"d"}"#
    );
    assert_eq!(
        err_to_json(&JokeBaseErr::JokeDoesNotExist("boo".into())),
        r#"{"JokeDoesNotExist":"boo"}"#
    );
    assert_eq!(
        err_to_json(&JokeBaseErr::JokeUnprocessable("w".into())),
        r#"{"JokeUnprocessable":"w"}"#
    );
    assert_eq!(err_to_json(&JokeBaseErr::DatabaseError("x".into())), r#"{"DatabaseError":"x"}"#);
}

#[test]
fn list_as_json() {
    assert_eq!(list_to_json(&Vec::new()), "[]");
    let list = vec![Joke::new("a", "b", "c", &[], None), Joke::new("d", "e", "f", &[], None)];
    assert_eq!(
        list_to_json(&list),
        r#"[{"id":"a","whos_there":"b","answer_who":"c"},{"id":"d","whos_there":"e","answer_who":"f"}]"#
    );
}

#[test]
fn document_maps_ids_to_records() {
    assert_eq!(to_document(&Vec::new()), "{}");
    let mut store = JokeBase::new();
    assert!(store.add(boo()).is_ok());
    assert!(store.add(Joke::new("a", "b", "c", &[], Some("s"))).is_ok());
    let text = store.document();
    assert_eq!(
        text,
        r#"{"boo":{"id":"boo","whos_there":"Boo","answer_who":"You don't have to cry about it!","tags":["kids","oldie"]},"a":{"id":"a","whos_there":"b","answer_who":"c","source":"s"}}"#
    );
    let back: serde_json::Value = serde_json::from_str(&text).unwrap();
    assert_eq!(back["boo"]["tags"][1], "oldie");
    assert_eq!(back["a"]["source"], "s");
}

#[test]
fn status_codes() {
    assert!(StatusCode::from_u16(99).is_none());
    assert!(StatusCode::from_u16(1000).is_none());
    assert_eq!(StatusCode::from_u16(100).unwrap().as_u16(), 100);
    assert_eq!(StatusCode::from_u16(999).unwrap().as_u16(), 999);
    assert_eq!(StatusCode::ok().as_u16(), 200);
    assert_eq!(StatusCode::created().as_u16(), 201);
    assert_eq!(StatusCode::no_content().as_u16(), 204);
    assert_eq!(StatusCode::bad_request().as_u16(), 400);
    assert_eq!(StatusCode::unauthorized().as_u16(), 401);
    assert_eq!(StatusCode::not_found().as_u16(), 404);
    assert_eq!(StatusCode::unprocessable_entity().as_u16(), 422);
    assert_eq!(StatusCode::internal_server_error().as_u16(), 500);
}

#[test]
fn status_lines() {
    assert_eq!(StatusCode::not_found().line(), "404 Not Found");
    assert_eq!(StatusCode::no_content().line(), "204 No Content");
    assert_eq!(StatusCode::unprocessable_entity().line(), "422 Unprocessable Entity");
    assert_eq!(StatusCode::from_u16(999).unwrap().line(), "999 <unknown status code>");
}

#[test]
fn error_response() {
    let r = JokeBaseError::response(StatusCode::not_found(), JokeBaseErr::NoJoke);
    assert_eq!(r.status.as_u16(), 404);
    assert_eq!(r.body, r#"{"status":"404 Not Found","error":"NoJoke"}"#);
    let r = JokeBaseError::response(
        StatusCode::bad_request(),
        JokeBaseErr::JokeExists("boo".into()),
    );
    assert_eq!(r.status.as_u16(), 400);
    assert_eq!(r.body, r#"{"status":"400 Bad Request","error":{"JokeExists":"boo"}}"#);
    let e = JokeBaseError { status: StatusCode::no_content(), error: JokeBaseErr::NoJoke };
    assert_eq!(e.body(), r#"{"status":"204 No Content","error":"NoJoke"}"#);
}

#[test]
fn route_that_returns_one_joke() {
    let r = api::joke(Ok(Joke::new("a", "b", "c", &[], None)));
    assert_eq!(r.status.as_u16(), 200);
    assert_eq!(r.body, r#"{"id":"a","whos_there":"b","answer_who":"c"}"#);
    let r = api::joke(Err(JokeBaseErr::JokeDoesNotExist("a".into())));
    assert_eq!(r.status.as_u16(), 204);
    assert_eq!(r.body, r#"{"status":"204 No Content","error":{"JokeDoesNotExist":"a"}}"#);
}

#[test]
fn route_that_lists() {
    let r = api::jokes(Ok(vec![Joke::new("a", "b", "c", &[], None)]));
    assert_eq!(r.status.as_u16(), 200);
    assert_eq!(r.body, r#"{"Ok":[{"id":"a","whos_there":"b","answer_who":"c"}]}"#);
    let r = api::jokes(Err(JokeBaseErr::DatabaseError("down".into())));
    assert_eq!(r.status.as_u16(), 200);
    assert_eq!(r.body, r#"{"Err":{"DatabaseError":"down"}}"#);
}

#[test]
fn routes_that_change() {
    let r = api::post_joke(Ok(()));
    assert_eq!((r.status.as_u16(), r.body.as_str()), (201, ""));
    let r = api::post_joke(Err(JokeBaseErr::JokeExists("a".into())));
    assert_eq!(r.status.as_u16(), 400);
    assert_eq!(r.body, r#"{"status":"400 Bad Request","error":{"JokeExists":"a"}}"#);
    let r = api::delete_joke(Ok(()));
    assert_eq!((r.status.as_u16(), r.body.as_str()), (200, ""));
    let r = api::delete_joke(Err(JokeBaseErr::JokeDoesNotExist("a".into())));
    assert_eq!(r.status.as_u16(), 400);
}

#[test]
fn route_that_updates() {
    let r = api::update_joke(Ok(()));
    assert_eq!((r.status.as_u16(), r.body.as_str()), (200, ""));
    let r = api::update_joke(Err(JokeBaseErr::JokeUnprocessable("empty id".into())));
    assert_eq!(r.status.as_u16(), 422);
    assert_eq!(
        r.body,
        r#"{"status":"422 Unprocessable Entity","error":{"JokeUnprocessable":"empty id"}}"#
    );
    let r = api::update_joke(Err(JokeBaseErr::NoJoke));
    assert_eq!(r.status.as_u16(), 404);
    let r = api::update_joke(Err(JokeBaseErr::JokeDoesNotExist("a".into())));
    assert_eq!(r.status.as_u16(), 400);
    let r = api::update_joke(Err(JokeBaseErr::DatabaseError("x".into())));
    assert_eq!(r.status.as_u16(), 400);
}
