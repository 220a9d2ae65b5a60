use knock_knock::authjwt::{make_claims, AuthBody, AuthError, Registration};
use knock_knock::joke::Joke;
use knock_knock::jokebase::JokeBaseErr;
use knock_knock::web::{
    add_outcome, address_of, index_outcome, parse_source, parse_tags, AddOutcome, AddParams,
    IndexOutcome, IndexParams, IndexTemplate, TellTemplate,
};

fn some(s: &str) -> Option<String> {
    Some(s.to_string())
}

fn strings(items: &[&str]) -> Vec<String> {
    items.iter().map(|s| s.to_string()).collect()
}

#[test]
fn tags_of_a_query() {
    assert_eq!(parse_tags(None), None);
    assert_eq!(parse_tags(some("")), None);
    assert_eq!(parse_tags(some(" , ,")), None);
    assert_eq!(parse_tags(some("kids")), Some(strings(&["kids"])));
    assert_eq!(parse_tags(some(" kids , food,kids,,")), Some(strings(&["kids", "food"])));
}

#[test]
fn source_of_a_query() {
    assert_eq!(parse_source(None), None);
    assert_eq!(parse_source(some("")), None);
    assert_eq!(parse_source(some(" ")), some(" "));
    assert_eq!(parse_source(some("http://example.com")), some("http://example.com"));
}

#[test]
fn record_of_a_query() {
    let params = AddParams {
        id: "boo".into(),
        who: "Boo".into(),
        answer: "Hoo".into(),
        tags: some("a, b"),
        source: some(""),
    };
    let j = params.into_joke();
    assert_eq!(j.id, "boo");
    assert_eq!(j.whos_there, "Boo");
    assert_eq!(j.answer_who, "Hoo");
    assert_eq!(j.tags, Some(strings(&["a", "b"])));
    assert_eq!(j.source, None);
}

#[test]
fn front_page_template() {
    let j = Joke::new("boo", "Boo", "Hoo", &["kids", "food"], None);
    let t = IndexTemplate::joke(&j);
    assert_eq!(t.joke.unwrap().id, "boo");
    assert_eq!(t.tags, some("kids, food"));
    assert_eq!(t.stylesheet, "/knock-knock.css");
    assert_eq!(t.error, None);
    let plain = Joke::new("boo", "Boo", "Hoo", &[], None);
    assert_eq!(IndexTemplate::joke(&plain).tags, None);
    let t = IndexTemplate::error("oops".to_string());
    assert!(t.joke.is_none());
    assert_eq!(t.tags, None);
    assert_eq!(t.stylesheet, "/knock-knock.css");
    assert_eq!(t.error, some("oops"));
}

#[test]
fn tell_page_template() {
    let t = TellTemplate::new(None);
    assert_eq!(t.stylesheet, "/knock-knock.css");
    assert_eq!(t.error, None);
    assert_eq!(TellTemplate::new(some("e")).error, some("e"));
    let p = IndexParams { id: some("boo") };
    assert_eq!(p.id, some("boo"));
}

#[test]
fn front_page_outcomes() {
    let j = || Joke::new("boo", "Boo", "Hoo", &[], None);
    assert_eq!(address_of("boo"), "/?id=boo");
    assert!(matches!(index_outcome(false, Ok(j())), IndexOutcome::Redirect(a) if a == "/?id=boo"));
    assert!(matches!(index_outcome(true, Ok(j())), IndexOutcome::Tell(t) if t.id == "boo"));
    assert!(matches!(
        index_outcome(true, Err(JokeBaseErr::JokeDoesNotExist("x".into()))),
        IndexOutcome::Missing(m) if m == "cannot find joke x"
    ));
    assert!(matches!(
        index_outcome(false, Err(JokeBaseErr::NoJoke)),
        IndexOutcome::Failure(m) if m == "no joke"
    ));
    assert!(matches!(
        index_outcome(true, Err(JokeBaseErr::DatabaseError("down".into()))),
        IndexOutcome::Failure(m) if m == "database error: down"
    ));
}

#[test]
fn add_page_outcomes() {
    assert!(matches!(add_outcome("boo", Ok(())), AddOutcome::Redirect(a) if a == "/?id=boo"));
    assert!(matches!(
        add_outcome("boo", Err(JokeBaseErr::JokeBaseIoError("disk".into()))),
        AddOutcome::Failure(m) if m == "disk"
    ));
    assert!(matches!(
        add_outcome("boo", Err(JokeBaseErr::JokeExists("boo".into()))),
        AddOutcome::Retry(m) if m == "joke boo already exists"
    ));
    assert!(matches!(
        add_outcome("boo", Err(JokeBaseErr::JokeUnprocessable("empty id".into()))),
        AddOutcome::Failure(m) if m == "joke payload unprocessable: empty id"
    ));
}

fn registration(password: &str) -> Registration {
    Registration {
        full_name: "John Smith".into(),
        email: "johnsmith@example.org".into(),
        password: password.into(),
    }
}

#[test]
fn claims_of_a_registration() {
    let c = make_claims("secret", &registration("secret"), 1717543666).unwrap();
    assert_eq!(c.iss, "knock-knock.po8.org");
    assert_eq!(c.sub, "John Smith <johnsmith@example.org>");
    assert_eq!(c.exp, 1717630066);
    assert_eq!(make_claims("secret", &registration("secret"), -86400).unwrap().exp, 0);
}

#[test]
fn wrong_password_is_refused() {
    assert!(matches!(
        make_claims("secret", &registration("guess"), 0),
        Err(AuthError::Registration)
    ));
    assert!(matches!(
        make_claims("secret", &registration("guess"), i64::MAX),
        Err(AuthError::Registration)
    ));
}

#[test]
fn moments_out_of_range_give_no_token() {
    assert!(matches!(
        make_claims("secret", &registration("secret"), -86401),
        Err(AuthError::TokenCreation)
    ));
    assert!(matches!(
        make_claims("secret", &registration("secret"), i64::MAX),
        Err(AuthError::TokenCreation)
    ));
    assert!(matches!(
        make_claims("secret", &registration("secret"), i64::MIN),
        Err(AuthError::TokenCreation)
    ));
}

#[test]
fn auth_errors_as_responses() {
    let r = AuthError::Registration.into_response();
    assert_eq!(r.status.as_u16(), 401);
    assert_eq!(r.body, r#"{"error":"Invalid registration","status":401}"#);
    let r = AuthError::TokenCreation.into_response();
    assert_eq!(r.status.as_u16(), 500);
    assert_eq!(r.body, r#"{"error":"Token creation error","status":500}"#);
    let r = AuthError::InvalidToken.into_response();
    assert_eq!(r.status.as_u16(), 401);
    assert_eq!(r.body, r#"{"error":"Invalid token","status":401}"#);
    assert_eq!(AuthError::InvalidToken.sentence(), "Invalid token");
    assert_eq!(AuthError::TokenCreation.status().as_u16(), 500);
}

#[test]
fn token_body() {
    let b = AuthBody::new("abc.def".to_string());
    assert_eq!(b.access_token, "abc.def");
    assert_eq!(b.token_type, "Bearer");
    let r = b.into_response();
    assert_eq!(r.status.as_u16(), 200);
    assert_eq!(r.body, r#"{"access_token":"abc.def","token_type":"Bearer"}"#);
    assert!(matches!(AuthBody::from_signing(None), Err(AuthError::TokenCreation)));
    assert!(matches!(
        AuthBody::from_signing(some("t")),
        Ok(b) if b.access_token == "t" && b.token_type == "Bearer"
    ));
}
