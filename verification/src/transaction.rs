//! One change of the relational backend as a state machine: from the outcome
//! of each statement to the next thing to do.

use crate::joke::{defect_of, Joke};
use crate::jokebase::JokeBaseErr;
use crate::model::ErrView;
use crate::relational::{
    add_plan, delete_plan, plan_add, plan_delete, plan_update, statement_views, update_plan,
    Statement, StatementView,
};
use crate::text::{opt_view, str_eq};
use vstd::prelude::*;
use vstd::string::*;

verus! {

/// Which change a transaction makes.
#[derive(Clone, Copy, Debug, PartialEq, Eq, Structural)]
pub enum Kind {
    Add,
    Update,
    Delete,
}

/// What the database answered to a statement.
#[derive(Debug)]
pub enum Event {
    /// The statement ran and touched this many rows.
    Ran { rows: u64 },
    /// The statement failed, with the SQLSTATE code where the database gave
    /// one, and a message.
    Failed { code: Option<String>, message: String },
}

/// An event as plain values.
pub ghost enum EventView {
    Ran { rows: u64 },
    Failed { code: Option<Seq<char>>, message: Seq<char> },
}

impl View for Event {
    type V = EventView;

    open spec fn view(&self) -> EventView {
        match self {
            Event::Ran { rows } => EventView::Ran { rows: *rows },
            Event::Failed { code, message } => EventView::Failed {
                code: opt_view(*code),
                message: message@,
            },
        }
    }
}

/// What to do next.
#[derive(Debug)]
pub enum Action {
    /// Run this statement and report its outcome to `step`.
    Run(Statement),
    /// Every statement succeeded: commit.
    Commit,
    /// Roll back, and fail the change with this error.
    Rollback(JokeBaseErr),
}

/// An action as plain values.
pub ghost enum ActionView {
    Run(StatementView),
    Commit,
    Rollback(ErrView),
}

impl View for Action {
    type V = ActionView;

    open spec fn view(&self) -> ActionView {
        match self {
            Action::Run(s) => ActionView::Run(s@),
            Action::Commit => ActionView::Commit,
            Action::Rollback(e) => ActionView::Rollback(e@),
        }
    }
}

/// The SQLSTATE code of a violated uniqueness constraint.
pub open spec fn unique_violation() -> Seq<char> {
    "23505"@
}

/// The error that ends a transaction after statement number `at` had the
/// outcome `event`, or nothing where the transaction goes on.
///
/// A failed statement ends it: as `JokeExists` where the first statement of
/// an addition violated a uniqueness constraint, as `DatabaseError` with the
/// message otherwise. The statement that touches the row of `jokes` ends an
/// update or a deletion with `JokeDoesNotExist` where it touched no row.
/// Once the row is known to be absent for an addition, or present for an
/// update, a payload with an empty required field ends the transaction with
/// `JokeUnprocessable`.
pub open spec fn verdict(
    kind: Kind,
    key: Seq<char>,
    defect: Option<Seq<char>>,
    at: int,
    event: EventView,
) -> Option<ErrView> {
    match event {
        EventView::Failed { code, message } => if kind == Kind::Add && at == 0 && code == Some(
            unique_violation(),
        ) {
            Some(ErrView::JokeExists(key))
        } else {
            Some(ErrView::DatabaseError(message))
        },
        EventView::Ran { rows } => if kind == Kind::Add && at == 0 {
            match defect {
                Some(why) => Some(ErrView::JokeUnprocessable(why)),
                None => None,
            }
        } else if kind == Kind::Update && at == 0 {
            if rows == 0 {
                Some(ErrView::JokeDoesNotExist(key))
            } else {
                match defect {
                    Some(why) => Some(ErrView::JokeUnprocessable(why)),
                    None => None,
                }
            }
        } else if kind == Kind::Delete && at == 1 && rows == 0 {
            Some(ErrView::JokeDoesNotExist(key))
        } else {
            None
        },
    }
}

/// The action that follows statement number `at`: the next statement, or
/// the commit after the last.
pub open spec fn proceed(steps: Seq<StatementView>, at: int) -> ActionView {
    if at + 1 < steps.len() {
        ActionView::Run(steps[at + 1])
    } else {
        ActionView::Commit
    }
}

/// A change in progress.
#[derive(Debug)]
pub struct Transaction {
    kind: Kind,
    key: String,
    defect: Option<String>,
    steps: Vec<Statement>,
    at: usize,
}

impl Transaction {
    #[verifier::type_invariant]
    spec fn sound(self) -> bool {
        self.steps.len() >= 1 && self.at <= self.steps.len()
    }

    /// Which change this is.
    pub closed spec fn kind(&self) -> Kind {
        self.kind
    }

    /// The id that the change is about.
    pub closed spec fn key(&self) -> Seq<char> {
        self.key@
    }

    /// Why the payload may not be stored, if it may not.
    pub closed spec fn defect(&self) -> Option<Seq<char>> {
        opt_view(self.defect)
    }

    /// The statements of the change.
    pub closed spec fn steps(&self) -> Seq<StatementView> {
        statement_views(self.steps@)
    }

    /// The number of the statement whose outcome is awaited.
    pub closed spec fn at(&self) -> int {
        self.at as int
    }

    /// The transaction that adds `joke`.
    pub fn add(joke: &Joke) -> (t: Transaction)
        ensures
            t.kind() == Kind::Add,
            t.key() == joke@.id,
            t.defect() == defect_of(joke@),
            t.steps() == add_plan(joke@),
            t.at() == 0,
    {
        let steps = plan_add(joke);
        assert(statement_views(steps@).len() == steps.len());
        Transaction {
            kind: Kind::Add,
            key: joke.id.clone(),
            defect: joke.defect(),
            steps,
            at: 0,
        }
    }

    /// The transaction that replaces the record under `index` by `joke`.
    pub fn update(index: &str, joke: &Joke) -> (t: Transaction)
        ensures
            t.kind() == Kind::Update,
            t.key() == index@,
            t.defect() == defect_of(joke@),
            t.steps() == update_plan(index@, joke@),
            t.at() == 0,
    {
        let steps = plan_update(index, joke);
        assert(statement_views(steps@).len() == steps.len());
        Transaction {
            kind: Kind::Update,
            key: index.to_owned(),
            defect: joke.defect(),
            steps,
            at: 0,
        }
    }

    /// The transaction that deletes the record under `index`.
    pub fn delete(index: &str) -> (t: Transaction)
        ensures
            t.kind() == Kind::Delete,
            t.key() == index@,
            t.defect() == None::<Seq<char>>,
            t.steps() == delete_plan(index@),
            t.at() == 0,
    {
        let steps = plan_delete(index);
        assert(statement_views(steps@).len() == steps.len());
        Transaction {
            kind: Kind::Delete,
            key: index.to_owned(),
            defect: None,
            steps,
            at: 0,
        }
    }

    /// The first action. An addition under an empty id is refused before any
    /// statement runs; every other transaction begins with its first
    /// statement.
    pub fn start(&self) -> (a: Action)
        ensures
            a@ == first_action(self.kind(), self.key(), self.steps()),
            self.steps().len() >= 1,
    {
        proof {
            use_type_invariant(self);
        }
        if self.kind == Kind::Add && self.key.as_str().is_empty() {
            Action::Rollback(JokeBaseErr::JokeUnprocessable("empty id".to_owned()))
        } else {
            Action::Run(self.steps[0].clone())
        }
    }

    /// Takes the outcome of the statement that was run last and says what to
    /// do next. Outcomes that arrive after the transaction has ended are
    /// answered with a rollback.
    pub fn step(&mut self, event: Event) -> (a: Action)
        ensures
            final(self).kind() == old(self).kind(),
            final(self).key() == old(self).key(),
            final(self).defect() == old(self).defect(),
            final(self).steps() == old(self).steps(),
            a@ == next_action(
                old(self).kind(),
                old(self).key(),
                old(self).defect(),
                old(self).steps(),
                old(self).at(),
                event@,
            ),
            final(self).at() == (if a@ is Run {
                old(self).at() + 1
            } else {
                old(self).steps().len() as int
            }),
    {
        proof {
            use_type_invariant(&*self);
        }
        let n: usize = self.steps.len();
        if self.at >= n {
            self.at = n;
            return Action::Rollback(
                JokeBaseErr::DatabaseError("the transaction has ended".to_owned()),
            );
        }
        let at: usize = self.at;
        let failure = self.judge(&event);
        match failure {
            Some(e) => {
                self.at = n;
                Action::Rollback(e)
            },
            None => {
                if at + 1 < n {
                    self.at = at + 1;
                    Action::Run(self.steps[at + 1].clone())
                } else {
                    self.at = n;
                    Action::Commit
                }
            },
        }
    }

    /// The error that the outcome `event` of the awaited statement ends the
    /// transaction with, if it ends it.
    fn judge(&self, event: &Event) -> (r: Option<JokeBaseErr>)
        ensures
            (match r {
                Some(e) => Some(e@),
                None => None,
            }) == verdict(self.kind(), self.key(), self.defect(), self.at(), event@),
    {
        match event {
            Event::Failed { code, message } => {
                let unique = match code {
                    Some(c) => str_eq(c.as_str(), "23505"),
                    None => false,
                };
                if self.kind == Kind::Add && self.at == 0 && unique {
                    Some(JokeBaseErr::JokeExists(self.key.clone()))
                } else {
                    Some(JokeBaseErr::DatabaseError(message.clone()))
                }
            },
            Event::Ran { rows } => {
                if self.kind == Kind::Add && self.at == 0 {
                    match &self.defect {
                        Some(why) => Some(JokeBaseErr::JokeUnprocessable(why.clone())),
                        None => None,
                    }
                } else if self.kind == Kind::Update && self.at == 0 {
                    if *rows == 0 {
                        Some(JokeBaseErr::JokeDoesNotExist(self.key.clone()))
                    } else {
                        match &self.defect {
                            Some(why) => Some(JokeBaseErr::JokeUnprocessable(why.clone())),
                            None => None,
                        }
                    }
                } else if self.kind == Kind::Delete && self.at == 1 && *rows == 0 {
                    Some(JokeBaseErr::JokeDoesNotExist(self.key.clone()))
                } else {
                    None
                }
            },
        }
    }

    /// The error of a commit that failed.
    pub fn commit_failed(message: String) -> (e: JokeBaseErr)
        ensures
            e@ == ErrView::DatabaseError(message@),
    {
        JokeBaseErr::DatabaseError(message)
    }
}

/// The first action of a transaction.
pub open spec fn first_action(kind: Kind, key: Seq<char>, steps: Seq<StatementView>) -> ActionView {
    if kind == Kind::Add && key.len() == 0 {
        ActionView::Rollback(ErrView::JokeUnprocessable("empty id"@))
    } else {
        ActionView::Run(steps[0])
    }
}

/// The action that answers the outcome `event` of statement number `at`.
pub open spec fn next_action(
    kind: Kind,
    key: Seq<char>,
    defect: Option<Seq<char>>,
    steps: Seq<StatementView>,
    at: int,
    event: EventView,
) -> ActionView {
    if at >= steps.len() {
        ActionView::Rollback(ErrView::DatabaseError("the transaction has ended"@))
    } else {
        match verdict(kind, key, defect, at, event) {
            Some(e) => ActionView::Rollback(e),
            None => proceed(steps, at),
        }
    }
}

} // verus!
