use knock_knock::file_store::{open, Startup};
use knock_knock::joke::Joke;
use knock_knock::jokebase::{JokeBase, JokeBaseErr};

fn plain(id: &str) -> Joke {
    Joke::new(id, "Who", "Answer", &[], None)
}

#[test]
fn staged_add_is_taken_over_after_a_successful_write() {
    let mut store = JokeBase::new();
    let staged = store.stage_add(plain("a")).unwrap();
    assert_eq!(staged.document(), r#"{"a":{"id":"a","whos_there":"Who","answer_who":"Answer"}}"#);
    assert_eq!(store.len(), 0);
    assert!(store.commit(staged, Ok(())).is_ok());
    assert_eq!(store.len(), 1);
    assert_eq!(store.get("a").unwrap().id, "a");
}

#[test]
fn failed_write_leaves_the_store_as_it_was() {
    let mut store = JokeBase::new();
    assert!(store.add(plain("a")).is_ok());
    let staged = store.stage_add(plain("b")).unwrap();
    let r = store.commit(staged, Err("disk full".to_string()));
    assert!(matches!(r, Err(JokeBaseErr::JokeBaseIoError(d)) if d == "disk full"));
    assert_eq!(store.len(), 1);
    assert!(matches!(store.get("b"), Err(JokeBaseErr::JokeDoesNotExist(_))));
}

#[test]
fn staging_fails_as_the_operation_would() {
    let mut store = JokeBase::new();
    assert!(store.add(plain("a")).is_ok());
    assert!(matches!(store.stage_add(plain("a")), Err(JokeBaseErr::JokeExists(id)) if id == "a"));
    assert!(matches!(
        store.stage_add(Joke::new("", "W", "A", &[], None)),
        Err(JokeBaseErr::JokeUnprocessable(why)) if why == "empty id"
    ));
    assert!(matches!(
        store.stage_update("b", plain("b")),
        Err(JokeBaseErr::JokeDoesNotExist(id)) if id == "b"
    ));
    assert!(matches!(
        store.stage_delete("b"),
        Err(JokeBaseErr::JokeDoesNotExist(id)) if id == "b"
    ));
}

#[test]
fn staged_update_and_delete() {
    let mut store = JokeBase::new();
    assert!(store.add(plain("a")).is_ok());
    assert!(store.add(plain("b")).is_ok());
    let staged = store.stage_update("a", Joke::new("x", "New", "Text", &[], None)).unwrap();
    assert_eq!(
        staged.document(),
        r#"{"a":{"id":"a","whos_there":"New","answer_who":"Text"},"b":{"id":"b","whos_there":"Who","answer_who":"Answer"}}"#
    );
    assert!(store.commit(staged, Ok(())).is_ok());
    assert_eq!(store.get("a").unwrap().whos_there, "New");
    let staged = store.stage_delete("a").unwrap();
    assert_eq!(staged.document(), r#"{"b":{"id":"b","whos_there":"Who","answer_who":"Answer"}}"#);
    assert!(store.commit(staged, Ok(())).is_ok());
    assert_eq!(store.len(), 1);
}

#[test]
fn missing_file_is_created_where_allowed() {
    match open(None, true) {
        Ok(Startup::Create(store)) => {
            assert_eq!(store.len(), 0);
            assert_eq!(store.document(), "{}");
        }
        other => panic!("{:?}", other),
    }
    assert!(matches!(open(None, false), Err(JokeBaseErr::NoJoke)));
}

#[test]
fn empty_file_counts_as_missing() {
    assert!(matches!(open(Some(vec![]), true), Ok(Startup::Create(_))));
    assert!(matches!(open(Some(vec![]), false), Err(JokeBaseErr::NoJoke)));
}

#[test]
fn file_with_records_is_served() {
    for allow_empty in [true, false] {
        match open(Some(vec![plain("a"), plain("b")]), allow_empty) {
            Ok(Startup::Serve(store)) => assert_eq!(store.len(), 2),
            other => panic!("{:?}", other),
        }
    }
}

#[test]
fn broken_collection_is_refused_at_startup() {
    assert!(matches!(
        open(Some(vec![plain("a"), plain("a")]), true),
        Err(JokeBaseErr::JokeExists(id)) if id == "a"
    ));
    assert!(matches!(
        open(Some(vec![plain("")]), true),
        Err(JokeBaseErr::JokeUnprocessable(_))
    ));
}
