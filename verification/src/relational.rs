//! The decisions of the relational backend: which statements a change runs
//! inside its transaction, and what each outcome of a statement means.
//!
//! The caller owns the connection. It asks `start` for the first action,
//! performs it, hands the outcome to `step`, and goes on until it is told to
//! commit or to roll back. Nothing is kept of a transaction that is rolled
//! back.

use crate::joke::{Joke, JokeView};
use crate::jokebase::JokeBaseErr;
use crate::model::ErrView;
use crate::text::{opt_view, views};
use vstd::prelude::*;
use vstd::string::*;

verus! {

/// One statement of a transaction, with the values it is bound to.
#[derive(Debug)]
pub enum Statement {
    /// Insert a row into `jokes`; refused where the id is already there.
    InsertJoke { id: String, whos_there: String, answer_who: String, source: Option<String> },
    /// Insert a row into `tags`.
    InsertTag { id: String, tag: String },
    /// Replace the texts and the source of the row of `jokes` with this id.
    UpdateJoke { id: String, whos_there: String, answer_who: String, source: Option<String> },
    /// Delete the rows of `tags` with this id.
    DeleteTags { id: String },
    /// Delete the row of `jokes` with this id.
    DeleteJoke { id: String },
}

/// A statement as plain values.
pub ghost enum StatementView {
    InsertJoke {
        id: Seq<char>,
        whos_there: Seq<char>,
        answer_who: Seq<char>,
        source: Option<Seq<char>>,
    },
    InsertTag { id: Seq<char>, tag: Seq<char> },
    UpdateJoke {
        id: Seq<char>,
        whos_there: Seq<char>,
        answer_who: Seq<char>,
        source: Option<Seq<char>>,
    },
    DeleteTags { id: Seq<char> },
    DeleteJoke { id: Seq<char> },
}

impl View for Statement {
    type V = StatementView;

    open spec fn view(&self) -> StatementView {
        match self {
            Statement::InsertJoke { id, whos_there, answer_who, source } => {
                StatementView::InsertJoke {
                    id: id@,
                    whos_there: whos_there@,
                    answer_who: answer_who@,
                    source: opt_view(*source),
                }
            },
            Statement::InsertTag { id, tag } => StatementView::InsertTag { id: id@, tag: tag@ },
            Statement::UpdateJoke { id, whos_there, answer_who, source } => {
                StatementView::UpdateJoke {
                    id: id@,
                    whos_there: whos_there@,
                    answer_who: answer_who@,
                    source: opt_view(*source),
                }
            },
            Statement::DeleteTags { id } => StatementView::DeleteTags { id: id@ },
            Statement::DeleteJoke { id } => StatementView::DeleteJoke { id: id@ },
        }
    }
}

impl Clone for Statement {
    fn clone(&self) -> (r: Statement)
        ensures
            r@ == self@,
    {
        match self {
            Statement::InsertJoke { id, whos_there, answer_who, source } => Statement::InsertJoke {
                id: id.clone(),
                whos_there: whos_there.clone(),
                answer_who: answer_who.clone(),
                source: crate::text::copy_opt(source),
            },
            Statement::InsertTag { id, tag } => Statement::InsertTag {
                id: id.clone(),
                tag: tag.clone(),
            },
            Statement::UpdateJoke { id, whos_there, answer_who, source } => Statement::UpdateJoke {
                id: id.clone(),
                whos_there: whos_there.clone(),
                answer_who: answer_who.clone(),
                source: crate::text::copy_opt(source),
            },
            Statement::DeleteTags { id } => Statement::DeleteTags { id: id.clone() },
            Statement::DeleteJoke { id } => Statement::DeleteJoke { id: id.clone() },
        }
    }
}

/// The SQL text of each kind of statement, with numbered parameters.
pub open spec fn sql_of(s: StatementView) -> Seq<char> {
    match s {
        StatementView::InsertJoke { .. } =>
            "INSERT INTO jokes (id, whos_there, answer_who, source) VALUES ($1, $2, $3, $4);"@,
        StatementView::InsertTag { .. } => "INSERT INTO tags (id, tag) VALUES ($1, $2);"@,
        StatementView::UpdateJoke { .. } =>
            "UPDATE jokes SET (whos_there, answer_who, source) = ($2, $3, $4) WHERE jokes.id = $1;"@,
        StatementView::DeleteTags { .. } => "DELETE FROM tags WHERE id = $1;"@,
        StatementView::DeleteJoke { .. } => "DELETE FROM jokes WHERE id = $1;"@,
    }
}

/// The values that the parameters of a statement are bound to, in order. A
/// missing source is bound as NULL.
pub open spec fn binds_of(s: StatementView) -> Seq<Option<Seq<char>>> {
    match s {
        StatementView::InsertJoke { id, whos_there, answer_who, source } => seq![
            Some(id),
            Some(whos_there),
            Some(answer_who),
            source,
        ],
        StatementView::InsertTag { id, tag } => seq![Some(id), Some(tag)],
        StatementView::UpdateJoke { id, whos_there, answer_who, source } => seq![
            Some(id),
            Some(whos_there),
            Some(answer_who),
            source,
        ],
        StatementView::DeleteTags { id } => seq![Some(id)],
        StatementView::DeleteJoke { id } => seq![Some(id)],
    }
}

/// The views of a sequence of optional strings.
pub open spec fn opt_views(v: Seq<Option<String>>) -> Seq<Option<Seq<char>>> {
    Seq::new(v.len(), |i: int| opt_view(v[i]))
}

impl Statement {
    /// The SQL text of the statement.
    pub fn sql(&self) -> (r: &'static str)
        ensures
            r@ == sql_of(self@),
    {
        match self {
            Statement::InsertJoke { .. } => {
                "INSERT INTO jokes (id, whos_there, answer_who, source) VALUES ($1, $2, $3, $4);"
            },
            Statement::InsertTag { .. } => "INSERT INTO tags (id, tag) VALUES ($1, $2);",
            Statement::UpdateJoke { .. } => {
                "UPDATE jokes SET (whos_there, answer_who, source) = ($2, $3, $4) WHERE jokes.id = $1;"
            },
            Statement::DeleteTags { .. } => "DELETE FROM tags WHERE id = $1;",
            Statement::DeleteJoke { .. } => "DELETE FROM jokes WHERE id = $1;",
        }
    }

    /// The values to bind, in the order of the parameters.
    pub fn binds(&self) -> (r: Vec<Option<String>>)
        ensures
            opt_views(r@) == binds_of(self@),
    {
        let mut r: Vec<Option<String>> = Vec::new();
        match self {
            Statement::InsertJoke { id, whos_there, answer_who, source } => {
                r.push(Some(id.clone()));
                r.push(Some(whos_there.clone()));
                r.push(Some(answer_who.clone()));
                r.push(crate::text::copy_opt(source));
            },
            Statement::InsertTag { id, tag } => {
                r.push(Some(id.clone()));
                r.push(Some(tag.clone()));
            },
            Statement::UpdateJoke { id, whos_there, answer_who, source } => {
                r.push(Some(id.clone()));
                r.push(Some(whos_there.clone()));
                r.push(Some(answer_who.clone()));
                r.push(crate::text::copy_opt(source));
            },
            Statement::DeleteTags { id } => {
                r.push(Some(id.clone()));
            },
            Statement::DeleteJoke { id } => {
                r.push(Some(id.clone()));
            },
        }
        assert(opt_views(r@) =~= binds_of(self@));
        r
    }
}

/// The views of a sequence of statements.
pub open spec fn statement_views(v: Seq<Statement>) -> Seq<StatementView> {
    Seq::new(v.len(), |i: int| v[i]@)
}

/// One insert into `tags` for each tag, under `id`.
pub open spec fn tag_inserts(id: Seq<char>, tags: Seq<Seq<char>>) -> Seq<StatementView> {
    Seq::new(tags.len(), |i: int| StatementView::InsertTag { id, tag: tags[i] })
}

/// The tags of a record, none where it has no tag field.
pub open spec fn tags_of(j: JokeView) -> Seq<Seq<char>> {
    match j.tags {
        Some(t) => t,
        None => Seq::<Seq<char>>::empty(),
    }
}

/// The statements that add `j`: the row, then its tags. `j` is stored in
/// normal form.
pub open spec fn add_plan(j: JokeView) -> Seq<StatementView> {
    let n = j.normal();
    seq![
        StatementView::InsertJoke {
            id: n.id,
            whos_there: n.whos_there,
            answer_who: n.answer_who,
            source: n.source,
        },
    ] + tag_inserts(n.id, tags_of(n))
}

/// The statements that replace the record under `id` by `j`: the row, then
/// its old tags away and its new ones in. All of them go by the key `id`,
/// not by the id inside `j`.
pub open spec fn update_plan(id: Seq<char>, j: JokeView) -> Seq<StatementView> {
    let n = j.normal();
    seq![
        StatementView::UpdateJoke {
            id,
            whos_there: n.whos_there,
            answer_who: n.answer_who,
            source: n.source,
        },
        StatementView::DeleteTags { id },
    ] + tag_inserts(id, tags_of(n))
}

/// The statements that delete the record under `id`: its tags, then its row.
pub open spec fn delete_plan(id: Seq<char>) -> Seq<StatementView> {
    seq![StatementView::DeleteTags { id }, StatementView::DeleteJoke { id }]
}

/// Appends one insert into `tags` for each tag of `tags`.
fn push_tag_inserts(plan: &mut Vec<Statement>, id: &str, tags: &Option<Vec<String>>)
    ensures
        statement_views(final(plan)@) == statement_views(old(plan)@) + tag_inserts(
            id@,
            match tags {
                Some(t) => views(t@),
                None => Seq::<Seq<char>>::empty(),
            },
        ),
{
    let ghost before = statement_views(plan@);
    match tags {
        Some(t) => {
            let n: usize = t.len();
            let mut i: usize = 0;
            assert(statement_views(plan@) =~= before + tag_inserts(id@, views(t@)).take(0));
            while i < n
                invariant
                    n == t.len(),
                    i <= n,
                    statement_views(plan@) == before + tag_inserts(id@, views(t@)).take(i as int),
                decreases n - i,
            {
                let ghost so_far = statement_views(plan@);
                plan.push(Statement::InsertTag { id: id.to_owned(), tag: t[i].clone() });
                assert(statement_views(plan@) =~= so_far.push(
                    StatementView::InsertTag { id: id@, tag: t@[i as int]@ },
                ));
                assert(statement_views(plan@) =~= before + tag_inserts(id@, views(t@)).take(
                    i as int + 1,
                ));
                i += 1;
            }
            assert(tag_inserts(id@, views(t@)).take(n as int) =~= tag_inserts(id@, views(t@)));
        },
        None => {
            assert(statement_views(plan@) =~= before + tag_inserts(
                id@,
                Seq::<Seq<char>>::empty(),
            ));
        },
    }
}

/// The statements that add `joke`.
pub fn plan_add(joke: &Joke) -> (plan: Vec<Statement>)
    ensures
        statement_views(plan@) == add_plan(joke@),
{
    let n = joke.clone().normalize();
    let mut plan: Vec<Statement> = Vec::new();
    plan.push(
        Statement::InsertJoke {
            id: n.id.clone(),
            whos_there: n.whos_there.clone(),
            answer_who: n.answer_who.clone(),
            source: crate::text::copy_opt(&n.source),
        },
    );
    assert(statement_views(plan@) =~= seq![
        StatementView::InsertJoke {
            id: n@.id,
            whos_there: n@.whos_there,
            answer_who: n@.answer_who,
            source: n@.source,
        },
    ]);
    push_tag_inserts(&mut plan, n.id.as_str(), &n.tags);
    plan
}

/// The statements that replace the record under `index` by `joke`.
pub fn plan_update(index: &str, joke: &Joke) -> (plan: Vec<Statement>)
    ensures
        statement_views(plan@) == update_plan(index@, joke@),
{
    let n = joke.clone().normalize();
    let mut plan: Vec<Statement> = Vec::new();
    plan.push(
        Statement::UpdateJoke {
            id: index.to_owned(),
            whos_there: n.whos_there.clone(),
            answer_who: n.answer_who.clone(),
            source: crate::text::copy_opt(&n.source),
        },
    );
    plan.push(Statement::DeleteTags { id: index.to_owned() });
    assert(statement_views(plan@) =~= seq![
        StatementView::UpdateJoke {
            id: index@,
            whos_there: n@.whos_there,
            answer_who: n@.answer_who,
            source: n@.source,
        },
        StatementView::DeleteTags { id: index@ },
    ]);
    push_tag_inserts(&mut plan, index, &n.tags);
    plan
}

/// The statements that delete the record under `index`.
pub fn plan_delete(index: &str) -> (plan: Vec<Statement>)
    ensures
        statement_views(plan@) == delete_plan(index@),
{
    let mut plan: Vec<Statement> = Vec::new();
    plan.push(Statement::DeleteTags { id: index.to_owned() });
    plan.push(Statement::DeleteJoke { id: index.to_owned() });
    assert(statement_views(plan@) =~= delete_plan(index@));
    plan
}

/// What a lookup by id returns for the row that the database found, if it
/// found one.
pub fn looked_up(index: &str, row: Option<Joke>) -> (r: Result<Joke, JokeBaseErr>)
    ensures
        crate::jokebase::found(r) == (match row {
            Some(j) => Ok::<JokeView, ErrView>(j@),
            None => Err::<JokeView, ErrView>(ErrView::JokeDoesNotExist(index@)),
        }),
{
    match row {
        Some(j) => Ok(j),
        None => Err(JokeBaseErr::JokeDoesNotExist(index.to_owned())),
    }
}

/// What a random pick returns for the row that the database picked, if there
/// was one to pick.
pub fn picked(row: Option<Joke>) -> (r: Result<Joke, JokeBaseErr>)
    ensures
        crate::jokebase::found(r) == (match row {
            Some(j) => Ok::<JokeView, ErrView>(j@),
            None => Err::<JokeView, ErrView>(ErrView::NoJoke),
        }),
{
    match row {
        Some(j) => Ok(j),
        None => Err(JokeBaseErr::NoJoke),
    }
}

} // verus!
