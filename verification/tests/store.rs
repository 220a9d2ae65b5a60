use knock_knock::joke::Joke;
use knock_knock::jokebase::{JokeBase, JokeBaseErr};

fn boo() -> Joke {
    Joke::new(
        "boo",
        "Boo",
        "You don't have to cry about it!",
        &["kids", "oldie"],
        None,
    )
}

fn plain(id: &str, who: &str, answer: &str) -> Joke {
    Joke::new(id, who, answer, &[], None)
}

fn strings(items: &[&str]) -> Vec<String> {
    items.iter().map(|s| s.to_string()).collect()
}

#[test]
fn add_get_add_again_delete_get() {
    let mut store = JokeBase::new();
    assert!(store.add(boo()).is_ok());
    let got = store.get("boo").unwrap();
    assert_eq!(got.id, "boo");
    assert_eq!(got.whos_there, "Boo");
    assert_eq!(got.answer_who, "You don't have to cry about it!");
    assert_eq!(got.tags, Some(strings(&["kids", "oldie"])));
    assert_eq!(got.source, None);
    assert!(matches!(store.add(boo()), Err(JokeBaseErr::JokeExists(id)) if id == "boo"));
    assert!(store.delete("boo").is_ok());
    assert!(matches!(store.get("boo"), Err(JokeBaseErr::JokeDoesNotExist(id)) if id == "boo"));
}

#[test]
fn add_normalizes_tags() {
    let mut store = JokeBase::new();
    let joke = Joke {
        id: "k".to_string(),
        whos_there: "K".to_string(),
        answer_who: "K who".to_string(),
        tags: Some(strings(&[" kids ", "kids", ""])),
        source: None,
    };
    assert!(store.add(joke).is_ok());
    assert_eq!(store.get("k").unwrap().tags, Some(strings(&["kids"])));
}

#[test]
fn add_collapses_blank_tags_and_empty_source() {
    let mut store = JokeBase::new();
    let joke = Joke {
        id: "k".to_string(),
        whos_there: "K".to_string(),
        answer_who: "K who".to_string(),
        tags: Some(strings(&["  ", "", "\t\n"])),
        source: Some(String::new()),
    };
    assert!(store.add(joke).is_ok());
    let got = store.get("k").unwrap();
    assert_eq!(got.tags, None);
    assert_eq!(got.source, None);
}

#[test]
fn add_keeps_first_of_equal_tags_in_order() {
    let mut store = JokeBase::new();
    let joke = Joke {
        id: "k".to_string(),
        whos_there: "K".to_string(),
        answer_who: "K who".to_string(),
        tags: Some(strings(&["b", " a", "b ", "c", "a"])),
        source: Some("http://example.com".to_string()),
    };
    assert!(store.add(joke).is_ok());
    let got = store.get("k").unwrap();
    assert_eq!(got.tags, Some(strings(&["b", "a", "c"])));
    assert_eq!(got.source, Some("http://example.com".to_string()));
}

#[test]
fn second_add_does_not_alter_the_record() {
    let mut store = JokeBase::new();
    assert!(store.add(boo()).is_ok());
    let other = plain("boo", "Other", "Something else");
    assert!(matches!(store.add(other), Err(JokeBaseErr::JokeExists(id)) if id == "boo"));
    let got = store.get("boo").unwrap();
    assert_eq!(got.whos_there, "Boo");
    assert_eq!(store.len(), 1);
}

#[test]
fn held_id_is_refused_before_an_empty_field() {
    let mut store = JokeBase::new();
    assert!(store.add(boo()).is_ok());
    let broken = plain("boo", "", "");
    assert!(matches!(store.add(broken), Err(JokeBaseErr::JokeExists(id)) if id == "boo"));
}

#[test]
fn add_refuses_empty_fields() {
    let mut store = JokeBase::new();
    assert!(matches!(
        store.add(plain("", "A", "B")),
        Err(JokeBaseErr::JokeUnprocessable(why)) if why == "empty id"
    ));
    assert!(matches!(
        store.add(plain("a", "", "B")),
        Err(JokeBaseErr::JokeUnprocessable(why)) if why == "empty whos_there"
    ));
    assert!(matches!(
        store.add(plain("a", "A", "")),
        Err(JokeBaseErr::JokeUnprocessable(why)) if why == "empty answer_who"
    ));
    assert_eq!(store.len(), 0);
}

#[test]
fn get_of_unknown_id_fails() {
    let store = JokeBase::new();
    assert!(matches!(store.get("nope"), Err(JokeBaseErr::JokeDoesNotExist(id)) if id == "nope"));
}

#[test]
fn delete_of_unknown_id_fails_and_changes_nothing() {
    let mut store = JokeBase::new();
    assert!(store.add(boo()).is_ok());
    assert!(matches!(store.delete("nope"), Err(JokeBaseErr::JokeDoesNotExist(id)) if id == "nope"));
    assert_eq!(store.len(), 1);
}

#[test]
fn delete_keeps_the_others_in_order() {
    let mut store = JokeBase::new();
    for id in ["a", "b", "c"] {
        assert!(store.add(plain(id, "W", "A")).is_ok());
    }
    assert!(store.delete("b").is_ok());
    let ids: Vec<String> = store.get_jokes().unwrap().into_iter().map(|j| j.id).collect();
    assert_eq!(ids, strings(&["a", "c"]));
}

#[test]
fn update_keeps_the_key() {
    let mut store = JokeBase::new();
    assert!(store.add(boo()).is_ok());
    let payload = Joke::new("other", "Who", "Answer", &[" x ", "x"], Some("src"));
    assert!(store.update("boo", payload).is_ok());
    let got = store.get("boo").unwrap();
    assert_eq!(got.id, "boo");
    assert_eq!(got.whos_there, "Who");
    assert_eq!(got.answer_who, "Answer");
    assert_eq!(got.tags, Some(strings(&["x"])));
    assert_eq!(got.source, Some("src".to_string()));
    assert!(matches!(store.get("other"), Err(JokeBaseErr::JokeDoesNotExist(_))));
    assert_eq!(store.len(), 1);
}

#[test]
fn update_of_unknown_id_fails() {
    let mut store = JokeBase::new();
    assert!(matches!(
        store.update("boo", boo()),
        Err(JokeBaseErr::JokeDoesNotExist(id)) if id == "boo"
    ));
    assert_eq!(store.len(), 0);
}

#[test]
fn update_refuses_a_payload_with_an_empty_id() {
    let mut store = JokeBase::new();
    assert!(store.add(boo()).is_ok());
    assert!(matches!(
        store.update("boo", plain("", "Who", "Answer")),
        Err(JokeBaseErr::JokeUnprocessable(why)) if why == "empty id"
    ));
    assert_eq!(store.get("boo").unwrap().whos_there, "Boo");
}

#[test]
fn update_replaces_in_place() {
    let mut store = JokeBase::new();
    for id in ["a", "b", "c"] {
        assert!(store.add(plain(id, "W", "A")).is_ok());
    }
    assert!(store.update("b", plain("zzz", "New", "Text")).is_ok());
    let all = store.get_jokes().unwrap();
    let ids: Vec<&str> = all.iter().map(|j| j.id.as_str()).collect();
    assert_eq!(ids, vec!["a", "b", "c"]);
    assert_eq!(all[1].whos_there, "New");
}

#[test]
fn random_pick_from_empty_store_fails() {
    let store = JokeBase::new();
    for draw in [0usize, 1, 7, usize::MAX] {
        assert!(matches!(store.get_random(draw), Err(JokeBaseErr::NoJoke)));
    }
}

#[test]
fn random_pick_of_the_only_record() {
    let mut store = JokeBase::new();
    assert!(store.add(boo()).is_ok());
    for draw in [0usize, 1, 2, 12345, usize::MAX] {
        assert_eq!(store.get_random(draw).unwrap().id, "boo");
    }
}

#[test]
fn random_pick_goes_by_the_remainder() {
    let mut store = JokeBase::new();
    for id in ["a", "b", "c"] {
        assert!(store.add(plain(id, "W", "A")).is_ok());
    }
    assert_eq!(store.get_random(0).unwrap().id, "a");
    assert_eq!(store.get_random(1).unwrap().id, "b");
    assert_eq!(store.get_random(2).unwrap().id, "c");
    assert_eq!(store.get_random(3).unwrap().id, "a");
    assert_eq!(store.get_random(100).unwrap().id, "b");
}

#[test]
fn list_of_empty_store_is_empty() {
    let store = JokeBase::new();
    assert!(store.get_jokes().unwrap().is_empty());
    assert_eq!(store.len(), 0);
}

#[test]
fn callers_get_copies() {
    let mut store = JokeBase::new();
    assert!(store.add(boo()).is_ok());
    let mut got = store.get("boo").unwrap();
    got.whos_there = "Changed".to_string();
    assert_eq!(store.get("boo").unwrap().whos_there, "Boo");
}

#[test]
fn clone_of_store_is_independent() {
    let mut store = JokeBase::new();
    assert!(store.add(boo()).is_ok());
    let copy = store.clone();
    assert!(store.delete("boo").is_ok());
    assert_eq!(copy.len(), 1);
    assert_eq!(copy.get("boo").unwrap().id, "boo");
}

#[test]
fn load_accepts_what_was_stored() {
    let mut store = JokeBase::new();
    assert!(store.add(boo()).is_ok());
    assert!(store.add(plain("a", "A", "B")).is_ok());
    let again = JokeBase::load(store.get_jokes().unwrap()).unwrap();
    let ids: Vec<String> = again.get_jokes().unwrap().into_iter().map(|j| j.id).collect();
    assert_eq!(ids, strings(&["boo", "a"]));
}

#[test]
fn load_refuses_an_id_twice() {
    let records = vec![plain("a", "A", "B"), plain("b", "A", "B"), plain("a", "C", "D")];
    assert!(matches!(JokeBase::load(records), Err(JokeBaseErr::JokeExists(id)) if id == "a"));
}

#[test]
fn load_refuses_an_empty_field() {
    let records = vec![plain("a", "A", "B"), plain("b", "", "B")];
    assert!(matches!(
        JokeBase::load(records),
        Err(JokeBaseErr::JokeUnprocessable(why)) if why == "empty whos_there"
    ));
}

#[test]
fn error_messages() {
    assert_eq!(JokeBaseErr::JokeExists("boo".into()).message(), "joke already exists: boo");
    assert_eq!(JokeBaseErr::JokeBaseIoError("disk".into()).message(), "jokebase io failed: disk");
    assert_eq!(JokeBaseErr::NoJoke.message(), "no joke");
    assert_eq!(JokeBaseErr::JokeDoesNotExist("boo".into()).message(), "joke boo doesn't exist");
    assert_eq!(
        JokeBaseErr::JokeUnprocessable("empty id".into()).message(),
        "joke payload unprocessable: empty id"
    );
    assert_eq!(JokeBaseErr::DatabaseError("down".into()).message(), "database error: down");
}
