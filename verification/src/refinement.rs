//! The relational backend does what the store does. A database is modelled
//! as its two tables, a statement by what it does to them, and a
//! transaction by running its statements against that model; the laws at
//! the end say that a transaction leaves the tables of the store that the
//! same change gives, and fails with the same error.

use crate::joke::{defect_of, lemma_normal_form, JokeView};
use crate::model::{
    add_verdict, after_add, after_delete, after_update, delete_verdict, holds, lemma_after_add,
    lemma_after_delete, lemma_after_update, lemma_position, position, replacement,
    update_verdict, well_formed, ErrView,
};
use crate::relational::{add_plan, delete_plan, tags_of, update_plan, StatementView};
use crate::transaction::{first_action, unique_violation, verdict, ActionView, EventView, Kind};
use vstd::prelude::*;

verus! {

/// A row of `jokes` without its id.
pub ghost struct Row {
    pub whos_there: Seq<char>,
    pub answer_who: Seq<char>,
    pub source: Option<Seq<char>>,
}

/// The two tables: `jokes` by id, and `tags` as pairs of id and tag.
pub ghost struct Database {
    pub jokes: Map<Seq<char>, Row>,
    pub tags: Set<(Seq<char>, Seq<char>)>,
}

/// The row of a record.
pub open spec fn row_of(j: JokeView) -> Row {
    Row { whos_there: j.whos_there, answer_who: j.answer_who, source: j.source }
}

/// The tables that hold exactly the records of `entries`.
pub open spec fn database_of(entries: Seq<JokeView>) -> Database {
    Database {
        jokes: Map::new(
            |id: Seq<char>| holds(entries, id),
            |id: Seq<char>| row_of(entries[position(entries, id)]),
        ),
        tags: Set::new(
            |p: (Seq<char>, Seq<char>)|
                holds(entries, p.0) && tags_of(entries[position(entries, p.0)]).contains(p.1),
        ),
    }
}

/// The rows of `tags` with the id `id`.
pub open spec fn tags_under(db: Database, id: Seq<char>) -> Set<(Seq<char>, Seq<char>)> {
    Set::new(|p: (Seq<char>, Seq<char>)| db.tags.contains(p) && p.0 == id)
}

/// What a statement does to the tables, and what the database answers. An
/// insert into `jokes` under an id that is there violates the uniqueness
/// constraint and changes nothing.
pub open spec fn run(db: Database, s: StatementView) -> (Database, EventView) {
    match s {
        StatementView::InsertJoke { id, whos_there, answer_who, source } => {
            if db.jokes.dom().contains(id) {
                (
                    db,
                    EventView::Failed {
                        code: Some(unique_violation()),
                        message: Seq::<char>::empty(),
                    },
                )
            } else {
                (
                    Database {
                        jokes: db.jokes.insert(id, Row { whos_there, answer_who, source }),
                        ..db
                    },
                    EventView::Ran { rows: 1 },
                )
            }
        },
        StatementView::InsertTag { id, tag } => (
            Database { tags: db.tags.insert((id, tag)), ..db },
            EventView::Ran { rows: 1 },
        ),
        StatementView::UpdateJoke { id, whos_there, answer_who, source } => {
            if db.jokes.dom().contains(id) {
                (
                    Database {
                        jokes: db.jokes.insert(id, Row { whos_there, answer_who, source }),
                        ..db
                    },
                    EventView::Ran { rows: 1 },
                )
            } else {
                (db, EventView::Ran { rows: 0 })
            }
        },
        StatementView::DeleteTags { id } => (
            Database { tags: db.tags.difference(tags_under(db, id)), ..db },
            EventView::Ran { rows: tags_under(db, id).len() as u64 },
        ),
        StatementView::DeleteJoke { id } => {
            if db.jokes.dom().contains(id) {
                (Database { jokes: db.jokes.remove(id), ..db }, EventView::Ran { rows: 1 })
            } else {
                (db, EventView::Ran { rows: 0 })
            }
        },
    }
}

/// The tables and the result after the statements from number `at` on have
/// run against `db`. The first outcome that ends the transaction rolls it
/// back to `start`; without one it is committed.
pub open spec fn run_from(
    kind: Kind,
    key: Seq<char>,
    defect: Option<Seq<char>>,
    steps: Seq<StatementView>,
    at: int,
    start: Database,
    db: Database,
) -> (Database, Result<(), ErrView>)
    decreases steps.len() - at,
{
    if at < 0 || at >= steps.len() {
        (db, Ok(()))
    } else {
        let (next, event) = run(db, steps[at]);
        match verdict(kind, key, defect, at, event) {
            Some(e) => (start, Err(e)),
            None => run_from(kind, key, defect, steps, at + 1, start, next),
        }
    }
}

/// The tables and the result after a whole transaction.
pub open spec fn transact(
    kind: Kind,
    key: Seq<char>,
    defect: Option<Seq<char>>,
    steps: Seq<StatementView>,
    db: Database,
) -> (Database, Result<(), ErrView>) {
    match first_action(kind, key, steps) {
        ActionView::Rollback(e) => (db, Err(e)),
        _ => run_from(kind, key, defect, steps, 0, db, db),
    }
}

/// `db` with the tags `tags[from..]` under `id` added.
pub open spec fn with_tags(db: Database, id: Seq<char>, tags: Seq<Seq<char>>, from: int) -> Database {
    Database {
        tags: db.tags.union(
            Set::new(
                |p: (Seq<char>, Seq<char>)|
                    p.0 == id && exists|i: int| from <= i < tags.len() && tags[i] == p.1,
            ),
        ),
        ..db
    }
}

/// The inserts into `tags` at the end of a plan all succeed and add their
/// tags.
proof fn lemma_run_tag_inserts(
    kind: Kind,
    key: Seq<char>,
    defect: Option<Seq<char>>,
    steps: Seq<StatementView>,
    at: int,
    start: Database,
    db: Database,
    id: Seq<char>,
    tags: Seq<Seq<char>>,
)
    requires
        2 <= at <= steps.len() || (1 <= at <= steps.len() && kind == Kind::Add),
        steps.len() - at <= tags.len(),
        forall|i: int|
            at <= i < steps.len() ==> steps[i] == (StatementView::InsertTag {
                id,
                tag: tags[tags.len() - steps.len() + i],
            }),
    ensures
        run_from(kind, key, defect, steps, at, start, db) == (
            with_tags(db, id, tags, tags.len() - steps.len() + at),
            Ok::<(), ErrView>(()),
        ),
    decreases steps.len() - at,
{
    let from = tags.len() - steps.len() + at;
    if at >= steps.len() {
        assert(with_tags(db, id, tags, from).tags =~= db.tags);
    } else {
        let (next, event) = run(db, steps[at]);
        assert(steps[at] == StatementView::InsertTag { id, tag: tags[from] });
        lemma_run_tag_inserts(kind, key, defect, steps, at + 1, start, next, id, tags);
        assert(with_tags(next, id, tags, from + 1).tags =~= with_tags(db, id, tags, from).tags) by {
            assert forall|p: (Seq<char>, Seq<char>)|
                with_tags(next, id, tags, from + 1).tags.contains(p) == with_tags(
                    db,
                    id,
                    tags,
                    from,
                ).tags.contains(p) by {
                if p == (id, tags[from]) {
                    assert(from <= from < tags.len() && tags[from] == p.1);
                }
            }
        }
    }
}

/// A transaction that adds `j` leaves the tables of the store after
/// `add(j)`, and has the result of `add(j)`.
pub proof fn law_add_refines(entries: Seq<JokeView>, j: JokeView)
    requires
        well_formed(entries),
    ensures
        transact(Kind::Add, j.id, defect_of(j), add_plan(j), database_of(entries)) == (
            database_of(after_add(entries, j)),
            add_verdict(entries, j),
        ),
{
    let db = database_of(entries);
    let steps = add_plan(j);
    let n = j.normal();
    lemma_normal_form(j);
    if j.id.len() == 0 {
        if holds(entries, j.id) {
            let p = position(entries, j.id);
            assert(entries[p].is_valid());
        }
    } else if holds(entries, j.id) {
        assert(db.jokes.dom().contains(j.id));
    } else if defect_of(j) is Some {
        assert(!db.jokes.dom().contains(j.id));
    } else {
        assert(!db.jokes.dom().contains(j.id));
        let (db1, event) = run(db, steps[0]);
        let tags = tags_of(n);
        assert(steps.len() == 1 + tags.len());
        lemma_run_tag_inserts(Kind::Add, j.id, defect_of(j), steps, 1, db, db1, n.id, tags);
        let end = with_tags(db1, n.id, tags, 0);
        let next = after_add(entries, j);
        lemma_after_add(entries, j);
        let target = database_of(next);
        assert forall|id: Seq<char>| holds(next, id) == (holds(entries, id) || id == j.id) by {
            if holds(next, id) {
                let p = position(next, id);
                if p < entries.len() {
                    assert(entries[p].id == id);
                }
            }
            if holds(entries, id) {
                let p = position(entries, id);
                assert(next[p].id == id);
            }
            if id == j.id {
                assert(next[next.len() - 1].id == id);
            }
        }
        assert forall|id: Seq<char>| holds(next, id) implies #[trigger] target.jokes[id]
            == end.jokes[id] by {
            if id == j.id {
                lemma_position(next, next.len() - 1);
            } else {
                let p = position(entries, id);
                assert(next[p] == entries[p]);
                lemma_position(next, p);
            }
        }
        assert(target.jokes =~= end.jokes);
        assert forall|p: (Seq<char>, Seq<char>)| target.tags.contains(p) == end.tags.contains(
            p,
        ) by {
            if p.0 == j.id {
                lemma_position(next, next.len() - 1);
                if tags.contains(p.1) {
                    let i = choose|i: int| 0 <= i < tags.len() && tags[i] == p.1;
                    assert(0 <= i < tags.len() && tags[i] == p.1);
                }
            } else if holds(entries, p.0) {
                let q = position(entries, p.0);
                assert(next[q] == entries[q]);
                lemma_position(next, q);
            }
        }
        assert(target.tags =~= end.tags);
    }
}

/// A transaction that deletes the record under `id` leaves the tables of
/// the store after `delete(id)`, and has the result of `delete(id)`.
pub proof fn law_delete_refines(entries: Seq<JokeView>, id: Seq<char>)
    requires
        well_formed(entries),
    ensures
        transact(Kind::Delete, id, None, delete_plan(id), database_of(entries)) == (
            database_of(after_delete(entries, id)),
            delete_verdict(entries, id),
        ),
{
    let db = database_of(entries);
    let steps = delete_plan(id);
    let (db1, e1) = run(db, steps[0]);
    let (db2, e2) = run(db1, steps[1]);
    assert(run_from(Kind::Delete, id, None, steps, 2, db, db2) == (db2, Ok::<(), ErrView>(())));
    assert(run_from(Kind::Delete, id, None, steps, 1, db, db1) == (match verdict(
        Kind::Delete,
        id,
        None,
        1,
        e2,
    ) {
        Some(e) => (db, Err::<(), ErrView>(e)),
        None => (db2, Ok::<(), ErrView>(())),
    }));
    if holds(entries, id) {
        assert(db1.jokes.dom().contains(id));
        let p = position(entries, id);
        let next = after_delete(entries, id);
        lemma_after_delete(entries, id);
        let target = database_of(next);
        assert forall|i: int| 0 <= i < next.len() implies #[trigger] next[i] == entries[if i < p {
            i
        } else {
            i + 1
        }] by {}
        assert forall|k: Seq<char>| holds(next, k) == (holds(entries, k) && k != id) by {
            if holds(next, k) {
                let q = position(next, k);
                let q0 = if q < p { q } else { q + 1 };
                assert(next[q] == entries[q0]);
                assert(entries[q0].id == k);
                if k == id {
                    lemma_position(entries, q0);
                }
            }
            if holds(entries, k) && k != id {
                let q = position(entries, k);
                let q1 = if q < p { q } else { q - 1 };
                assert(next[q1] == entries[q]);
                assert(next[q1].id == k);
            }
        }
        assert forall|k: Seq<char>| holds(next, k) implies next[position(next, k)] == entries[
            position(entries, k)] by {
            let q = position(next, k);
            let q0 = if q < p { q } else { q + 1 };
            assert(next[q] == entries[q0]);
            lemma_position(entries, q0);
        }
        assert(target.jokes =~= db2.jokes);
        assert(target.tags =~= db2.tags);
    } else {
        assert(!db1.jokes.dom().contains(id));
    }
}

/// A transaction that replaces the record under `id` by `j` leaves the
/// tables of the store after `update(id, j)`, and has the result of
/// `update(id, j)`.
pub proof fn law_update_refines(entries: Seq<JokeView>, id: Seq<char>, j: JokeView)
    requires
        well_formed(entries),
    ensures
        transact(Kind::Update, id, defect_of(j), update_plan(id, j), database_of(entries)) == (
            database_of(after_update(entries, id, j)),
            update_verdict(entries, id, j),
        ),
{
    let db = database_of(entries);
    let steps = update_plan(id, j);
    let n = j.normal();
    lemma_normal_form(j);
    let (db1, e1) = run(db, steps[0]);
    if !holds(entries, id) {
        assert(!db.jokes.dom().contains(id));
    } else if defect_of(j) is Some {
        assert(db.jokes.dom().contains(id));
    } else {
        assert(db.jokes.dom().contains(id));
        let (db2, e2) = run(db1, steps[1]);
        let tags = tags_of(n);
        assert(steps.len() == 2 + tags.len());
        lemma_run_tag_inserts(Kind::Update, id, defect_of(j), steps, 2, db, db2, id, tags);
        assert(run_from(Kind::Update, id, defect_of(j), steps, 1, db, db1) == run_from(
            Kind::Update,
            id,
            defect_of(j),
            steps,
            2,
            db,
            db2,
        ));
        let end = with_tags(db2, id, tags, 0);
        let p = position(entries, id);
        let r = replacement(id, j);
        let next = after_update(entries, id, j);
        lemma_after_update(entries, id, j);
        let target = database_of(next);
        assert(next[p] == r);
        assert forall|k: Seq<char>| holds(next, k) == holds(entries, k) by {
            if holds(next, k) {
                let q = position(next, k);
                assert(entries[q].id == k);
            }
            if holds(entries, k) {
                let q = position(entries, k);
                assert(next[q].id == k);
            }
        }
        assert forall|k: Seq<char>| holds(next, k) implies position(next, k) == position(
            entries,
            k,
        ) by {
            let q = position(entries, k);
            assert(next[q].id == k);
            lemma_position(next, q);
        }
        assert forall|k: Seq<char>| holds(next, k) implies #[trigger] target.jokes[k]
            == end.jokes[k] by {
            let q = position(entries, k);
            if k != id {
                assert(next[q] == entries[q]);
            }
        }
        assert(target.jokes =~= end.jokes);
        assert forall|t: (Seq<char>, Seq<char>)| target.tags.contains(t) == end.tags.contains(
            t,
        ) by {
            if t.0 == id {
                if tags.contains(t.1) {
                    let i = choose|i: int| 0 <= i < tags.len() && tags[i] == t.1;
                    assert(0 <= i < tags.len() && tags[i] == t.1);
                }
            } else if holds(entries, t.0) {
                let q = position(entries, t.0);
                assert(next[q] == entries[q]);
            }
        }
        assert(target.tags =~= end.tags);
    }
}

} // verus!
