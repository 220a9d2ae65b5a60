use knock_knock::dberror::{database_error, failed};
use knock_knock::joke::Joke;
use knock_knock::jokebase::JokeBaseErr;
use knock_knock::relational::{
    looked_up, picked, plan_add, plan_delete, plan_update, Statement,
};
use knock_knock::transaction::{Action, Event, Transaction};
use std::collections::{BTreeMap, BTreeSet};

fn some(s: &str) -> Option<String> {
    Some(s.to_string())
}

/// The two tables, as a test double of the database.
struct Tables {
    jokes: BTreeMap<String, (String, String, Option<String>)>,
    tags: BTreeSet<(String, String)>,
}

impl Tables {
    fn new() -> Self {
        Tables { jokes: BTreeMap::new(), tags: BTreeSet::new() }
    }

    fn run(&mut self, s: &Statement) -> Event {
        match s {
            Statement::InsertJoke { id, whos_there, answer_who, source } => {
                if self.jokes.contains_key(id) {
                    Event::Failed { code: some("23505"), message: "duplicate key".to_string() }
                } else {
                    self.jokes.insert(
                        id.clone(),
                        (whos_there.clone(), answer_who.clone(), source.clone()),
                    );
                    Event::Ran { rows: 1 }
                }
            }
            Statement::InsertTag { id, tag } => {
                self.tags.insert((id.clone(), tag.clone()));
                Event::Ran { rows: 1 }
            }
            Statement::UpdateJoke { id, whos_there, answer_who, source } => {
                if self.jokes.contains_key(id) {
                    self.jokes.insert(
                        id.clone(),
                        (whos_there.clone(), answer_who.clone(), source.clone()),
                    );
                    Event::Ran { rows: 1 }
                } else {
                    Event::Ran { rows: 0 }
                }
            }
            Statement::DeleteTags { id } => {
                let before = self.tags.len();
                self.tags.retain(|(i, _)| i != id);
                Event::Ran { rows: (before - self.tags.len()) as u64 }
            }
            Statement::DeleteJoke { id } => {
                if self.jokes.remove(id).is_some() {
                    Event::Ran { rows: 1 }
                } else {
                    Event::Ran { rows: 0 }
                }
            }
        }
    }

    /// Runs a whole transaction as a caller would: on a copy that is kept
    /// only when the machine says to commit.
    fn transact(&mut self, mut t: Transaction) -> Result<(), JokeBaseErr> {
        let mut work = Tables { jokes: self.jokes.clone(), tags: self.tags.clone() };
        let mut action = t.start();
        loop {
            match action {
                Action::Run(s) => {
                    let event = work.run(&s);
                    action = t.step(event);
                }
                Action::Commit => {
                    *self = work;
                    return Ok(());
                }
                Action::Rollback(e) => return Err(e),
            }
        }
    }
}

fn boo() -> Joke {
    Joke::new("boo", "Boo", "Hoo", &[" kids ", "kids", "", "oldie"], Some(""))
}

#[test]
fn plan_of_an_addition() {
    let plan = plan_add(&boo());
    assert_eq!(plan.len(), 3);
    assert!(matches!(
        &plan[0],
        Statement::InsertJoke { id, whos_there, answer_who, source: None }
            if id == "boo" && whos_there == "Boo" && answer_who == "Hoo"
    ));
    assert!(matches!(&plan[1], Statement::InsertTag { id, tag } if id == "boo" && tag == "kids"));
    assert!(matches!(&plan[2], Statement::InsertTag { id, tag } if id == "boo" && tag == "oldie"));
}

#[test]
fn plan_of_an_update_goes_by_the_key() {
    let plan = plan_update("key", &Joke::new("other", "W", "A", &["t"], Some("s")));
    assert_eq!(plan.len(), 3);
    assert!(matches!(
        &plan[0],
        Statement::UpdateJoke { id, whos_there, answer_who, source: Some(s) }
            if id == "key" && whos_there == "W" && answer_who == "A" && s == "s"
    ));
    assert!(matches!(&plan[1], Statement::DeleteTags { id } if id == "key"));
    assert!(matches!(&plan[2], Statement::InsertTag { id, tag } if id == "key" && tag == "t"));
}

#[test]
fn plan_of_a_deletion() {
    let plan = plan_delete("key");
    assert_eq!(plan.len(), 2);
    assert!(matches!(&plan[0], Statement::DeleteTags { id } if id == "key"));
    assert!(matches!(&plan[1], Statement::DeleteJoke { id } if id == "key"));
}

#[test]
fn sql_and_binds() {
    let s = Statement::InsertJoke {
        id: "a".into(),
        whos_there: "b".into(),
        answer_who: "c".into(),
        source: None,
    };
    assert_eq!(
        s.sql(),
        "INSERT INTO jokes (id, whos_there, answer_who, source) VALUES ($1, $2, $3, $4);"
    );
    assert_eq!(s.binds(), vec![some("a"), some("b"), some("c"), None]);
    let s = Statement::InsertTag { id: "a".into(), tag: "t".into() };
    assert_eq!(s.sql(), "INSERT INTO tags (id, tag) VALUES ($1, $2);");
    assert_eq!(s.binds(), vec![some("a"), some("t")]);
    let s = Statement::UpdateJoke {
        id: "a".into(),
        whos_there: "b".into(),
        answer_who: "c".into(),
        source: some("s"),
    };
    assert_eq!(
        s.sql(),
        "UPDATE jokes SET (whos_there, answer_who, source) = ($2, $3, $4) WHERE jokes.id = $1;"
    );
    assert_eq!(s.binds(), vec![some("a"), some("b"), some("c"), some("s")]);
    let s = Statement::DeleteTags { id: "a".into() };
    assert_eq!(s.sql(), "DELETE FROM tags WHERE id = $1;");
    assert_eq!(s.binds(), vec![some("a")]);
    let s = Statement::DeleteJoke { id: "a".into() };
    assert_eq!(s.sql(), "DELETE FROM jokes WHERE id = $1;");
    assert_eq!(s.binds(), vec![some("a")]);
}

#[test]
fn addition_commits_row_and_tags() {
    let mut db = Tables::new();
    assert!(db.transact(Transaction::add(&boo())).is_ok());
    assert_eq!(db.jokes.get("boo"), Some(&("Boo".to_string(), "Hoo".to_string(), None)));
    let tags: Vec<(String, String)> = db.tags.iter().cloned().collect();
    assert_eq!(
        tags,
        vec![("boo".to_string(), "kids".to_string()), ("boo".to_string(), "oldie".to_string())]
    );
}

#[test]
fn second_addition_is_rolled_back_as_exists() {
    let mut db = Tables::new();
    assert!(db.transact(Transaction::add(&boo())).is_ok());
    let other = Joke::new("boo", "Other", "Else", &["x"], None);
    assert!(matches!(
        db.transact(Transaction::add(&other)),
        Err(JokeBaseErr::JokeExists(id)) if id == "boo"
    ));
    assert_eq!(db.jokes.get("boo").unwrap().0, "Boo");
    assert_eq!(db.tags.len(), 2);
}

#[test]
fn addition_with_an_empty_id_runs_no_statement() {
    let t = Transaction::add(&Joke::new("", "W", "A", &[], None));
    assert!(matches!(
        t.start(),
        Action::Rollback(JokeBaseErr::JokeUnprocessable(why)) if why == "empty id"
    ));
}

#[test]
fn addition_with_an_empty_text_is_rolled_back() {
    let mut db = Tables::new();
    let broken = Joke::new("a", "", "A", &["t"], None);
    assert!(matches!(
        db.transact(Transaction::add(&broken)),
        Err(JokeBaseErr::JokeUnprocessable(why)) if why == "empty whos_there"
    ));
    assert!(db.jokes.is_empty());
    assert!(db.tags.is_empty());
}

#[test]
fn update_replaces_row_and_tags_under_the_key() {
    let mut db = Tables::new();
    assert!(db.transact(Transaction::add(&boo())).is_ok());
    let payload = Joke::new("other", "W", "A", &["new"], Some("s"));
    assert!(db.transact(Transaction::update("boo", &payload)).is_ok());
    assert_eq!(
        db.jokes.get("boo"),
        Some(&("W".to_string(), "A".to_string(), Some("s".to_string())))
    );
    assert!(!db.jokes.contains_key("other"));
    let tags: Vec<(String, String)> = db.tags.iter().cloned().collect();
    assert_eq!(tags, vec![("boo".to_string(), "new".to_string())]);
}

#[test]
fn update_of_a_missing_row_fails() {
    let mut db = Tables::new();
    assert!(matches!(
        db.transact(Transaction::update("boo", &boo())),
        Err(JokeBaseErr::JokeDoesNotExist(id)) if id == "boo"
    ));
    assert!(db.jokes.is_empty());
}

#[test]
fn update_with_a_broken_payload_is_rolled_back() {
    let mut db = Tables::new();
    assert!(db.transact(Transaction::add(&boo())).is_ok());
    let broken = Joke::new("", "W", "A", &[], None);
    assert!(matches!(
        db.transact(Transaction::update("boo", &broken)),
        Err(JokeBaseErr::JokeUnprocessable(why)) if why == "empty id"
    ));
    assert_eq!(db.jokes.get("boo").unwrap().0, "Boo");
    assert_eq!(db.tags.len(), 2);
}

#[test]
fn deletion_removes_row_and_tags() {
    let mut db = Tables::new();
    assert!(db.transact(Transaction::add(&boo())).is_ok());
    assert!(db.transact(Transaction::add(&Joke::new("a", "W", "A", &["t"], None))).is_ok());
    assert!(db.transact(Transaction::delete("boo")).is_ok());
    assert!(!db.jokes.contains_key("boo"));
    let tags: Vec<(String, String)> = db.tags.iter().cloned().collect();
    assert_eq!(tags, vec![("a".to_string(), "t".to_string())]);
}

#[test]
fn deletion_of_a_missing_row_fails() {
    let mut db = Tables::new();
    assert!(matches!(
        db.transact(Transaction::delete("boo")),
        Err(JokeBaseErr::JokeDoesNotExist(id)) if id == "boo"
    ));
}

#[test]
fn other_failures_are_database_errors() {
    let mut t = Transaction::add(&boo());
    assert!(matches!(t.start(), Action::Run(Statement::InsertJoke { .. })));
    let a = t.step(Event::Failed { code: some("08006"), message: "connection lost".into() });
    assert!(matches!(a, Action::Rollback(JokeBaseErr::DatabaseError(m)) if m == "connection lost"));

    let mut t = Transaction::add(&boo());
    let _ = t.start();
    let a = t.step(Event::Failed { code: None, message: "no code".into() });
    assert!(matches!(a, Action::Rollback(JokeBaseErr::DatabaseError(m)) if m == "no code"));

    let mut t = Transaction::add(&boo());
    let _ = t.start();
    assert!(matches!(t.step(Event::Ran { rows: 1 }), Action::Run(Statement::InsertTag { .. })));
    let a = t.step(Event::Failed { code: some("23505"), message: "tag twice".into() });
    assert!(matches!(a, Action::Rollback(JokeBaseErr::DatabaseError(m)) if m == "tag twice"));

    let mut t = Transaction::update("boo", &boo());
    let _ = t.start();
    let a = t.step(Event::Failed { code: some("23505"), message: "odd".into() });
    assert!(matches!(a, Action::Rollback(JokeBaseErr::DatabaseError(m)) if m == "odd"));
}

#[test]
fn outcome_after_the_end_is_answered_with_a_rollback() {
    let mut t = Transaction::delete("boo");
    let _ = t.start();
    assert!(matches!(t.step(Event::Ran { rows: 3 }), Action::Run(Statement::DeleteJoke { .. })));
    assert!(matches!(t.step(Event::Ran { rows: 1 }), Action::Commit));
    assert!(matches!(
        t.step(Event::Ran { rows: 1 }),
        Action::Rollback(JokeBaseErr::DatabaseError(m)) if m == "the transaction has ended"
    ));
}

#[test]
fn failed_commit() {
    assert!(matches!(
        Transaction::commit_failed("no space".to_string()),
        JokeBaseErr::DatabaseError(m) if m == "no space"
    ));
}

#[test]
fn driver_error_without_a_code() {
    let e = sqlx::Error::RowNotFound;
    let text = e.to_string();
    assert!(!text.is_empty());
    match failed(&e) {
        Event::Failed { code, message } => {
            assert_eq!(code, None);
            assert_eq!(message, text);
        }
        other => panic!("{:?}", other),
    }
    assert!(matches!(database_error(&e), JokeBaseErr::DatabaseError(m) if m == text));
    assert!(matches!(JokeBaseErr::from(e), JokeBaseErr::DatabaseError(m) if m == text));
}

#[derive(Debug)]
struct Refused;

impl std::fmt::Display for Refused {
    fn fmt(&self, f: &mut std::fmt::Formatter<'_>) -> std::fmt::Result {
        f.write_str("duplicate key value")
    }
}

impl std::error::Error for Refused {}

impl sqlx::error::DatabaseError for Refused {
    fn message(&self) -> &str {
        "duplicate key value"
    }

    fn code(&self) -> Option<std::borrow::Cow<'_, str>> {
        Some(std::borrow::Cow::Borrowed("23505"))
    }

    fn as_error(&self) -> &(dyn std::error::Error + Send + Sync + 'static) {
        self
    }

    fn as_error_mut(&mut self) -> &mut (dyn std::error::Error + Send + Sync + 'static) {
        self
    }

    fn into_error(self: Box<Self>) -> Box<dyn std::error::Error + Send + Sync + 'static> {
        self
    }

    fn kind(&self) -> sqlx::error::ErrorKind {
        sqlx::error::ErrorKind::UniqueViolation
    }
}

#[test]
fn driver_error_with_a_code_makes_an_addition_fail_as_exists() {
    let e = sqlx::Error::Database(Box::new(Refused));
    let event = failed(&e);
    assert!(matches!(
        &event,
        Event::Failed { code: Some(c), message }
            if c == "23505" && message == "error returned from database: duplicate key value"
    ));
    let mut t = Transaction::add(&boo());
    let _ = t.start();
    assert!(matches!(
        t.step(event),
        Action::Rollback(JokeBaseErr::JokeExists(id)) if id == "boo"
    ));
}

#[test]
fn record_of_a_row() {
    let j = Joke::from_row(
        "boo".into(),
        "Boo".into(),
        "Hoo".into(),
        None,
        vec!["kids".to_string(), "oldie".to_string(), "kids".to_string()],
    );
    assert_eq!(j.id, "boo");
    assert_eq!(j.whos_there, "Boo");
    assert_eq!(j.answer_who, "Hoo");
    assert_eq!(j.source, None);
    assert_eq!(j.tags, Some(vec!["kids".to_string(), "oldie".to_string()]));
    let j = Joke::from_row("a".into(), "b".into(), "c".into(), some("s"), vec![]);
    assert_eq!(j.tags, None);
    assert_eq!(j.source, some("s"));
}

#[test]
fn rows_that_were_not_found() {
    assert!(matches!(looked_up("boo", None), Err(JokeBaseErr::JokeDoesNotExist(id)) if id == "boo"));
    assert!(matches!(looked_up("boo", Some(boo())), Ok(j) if j.id == "boo"));
    assert!(matches!(picked(None), Err(JokeBaseErr::NoJoke)));
    assert!(matches!(picked(Some(boo())), Ok(j) if j.id == "boo"));
}
