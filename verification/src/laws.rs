//! What holds of the store whatever is done to it, stated over the functions
//! of the model that the contracts of `JokeBase` speak of.

use crate::joke::{lemma_normal_form, JokeView};
use crate::jokebase::load_spec;
use crate::model::{
    as_map, lemma_as_map, add_verdict, after_add, after_delete, after_update, delete_verdict, get_spec, holds,
    lemma_after_add, lemma_after_delete, lemma_after_update, lemma_position, pick_spec, position,
    replacement, update_verdict, well_formed, ErrView,
};
use crate::text::{dedup, distinct};
use vstd::prelude::*;

verus! {

/// Every operation leaves the store well formed: whatever is added, replaced
/// or deleted, no two records share an id, and every record is valid and in
/// normal form.
pub proof fn law_store_stays_well_formed(
    entries: Seq<JokeView>,
    id: Seq<char>,
    payload: JokeView,
)
    requires
        well_formed(entries),
    ensures
        well_formed(after_add(entries, payload)),
        well_formed(after_update(entries, id, payload)),
        well_formed(after_delete(entries, id)),
{
    lemma_after_add(entries, payload);
    lemma_after_update(entries, id, payload);
    lemma_after_delete(entries, id);
}

/// Adding under an id that is already held fails with `JokeExists`, and the
/// store, the held record with it, is left as it was.
pub proof fn law_add_refuses_held_id(entries: Seq<JokeView>, j: JokeView)
    requires
        holds(entries, j.id),
    ensures
        add_verdict(entries, j) == Err::<(), ErrView>(ErrView::JokeExists(j.id)),
        after_add(entries, j) == entries,
        get_spec(after_add(entries, j), j.id) == get_spec(entries, j.id),
{
}

/// After a record was added, adding another under the same id fails with
/// `JokeExists`, and a lookup still returns the first.
pub proof fn law_second_add_fails(entries: Seq<JokeView>, first: JokeView, second: JokeView)
    requires
        well_formed(entries),
        add_verdict(entries, first) is Ok,
        second.id == first.id,
    ensures
        add_verdict(after_add(entries, first), second) == Err::<(), ErrView>(
            ErrView::JokeExists(first.id),
        ),
        after_add(after_add(entries, first), second) == after_add(entries, first),
        get_spec(after_add(after_add(entries, first), second), first.id) == Ok::<
            JokeView,
            ErrView,
        >(first.normal()),
{
    law_add_then_get(entries, first);
}

/// A record that was added is returned by a lookup of its id, in normal
/// form.
pub proof fn law_add_then_get(entries: Seq<JokeView>, j: JokeView)
    requires
        well_formed(entries),
        add_verdict(entries, j) is Ok,
    ensures
        get_spec(after_add(entries, j), j.id) == Ok::<JokeView, ErrView>(j.normal()),
        holds(after_add(entries, j), j.id),
{
    let next = after_add(entries, j);
    lemma_after_add(entries, j);
    let last = next.len() - 1;
    assert(next[last] == j.normal());
    lemma_position(next, last);
}

/// A record in normal form comes back from the store exactly as it went in.
pub proof fn law_add_then_get_normal(entries: Seq<JokeView>, j: JokeView)
    requires
        well_formed(entries),
        add_verdict(entries, j) is Ok,
        j.is_normal(),
    ensures
        get_spec(after_add(entries, j), j.id) == Ok::<JokeView, ErrView>(j),
{
    law_add_then_get(entries, j);
    lemma_normal_form(j);
}

/// After a delete, whether it found the record or not, a lookup of the id
/// fails with `JokeDoesNotExist`.
pub proof fn law_delete_then_get(entries: Seq<JokeView>, id: Seq<char>)
    requires
        well_formed(entries),
    ensures
        get_spec(after_delete(entries, id), id) == Err::<JokeView, ErrView>(
            ErrView::JokeDoesNotExist(id),
        ),
{
    lemma_after_delete(entries, id);
}

/// A delete touches no other record: a lookup of another id returns what it
/// returned before.
pub proof fn law_delete_keeps_others(entries: Seq<JokeView>, id: Seq<char>, other: Seq<char>)
    requires
        well_formed(entries),
        other != id,
    ensures
        get_spec(after_delete(entries, id), other) == get_spec(entries, other),
{
    lemma_after_delete(entries, id);
    let next = after_delete(entries, id);
    if holds(entries, id) {
        let p = position(entries, id);
        if holds(entries, other) {
            let q = position(entries, other);
            let q1 = if q < p { q } else { q - 1 };
            assert(next[q1] == entries[q]);
            lemma_position(next, q1);
        } else if holds(next, other) {
            let q = position(next, other);
            let q0 = if q < p { q } else { q + 1 };
            assert(next[q] == entries[q0]);
        }
    }
}

/// After an update that succeeded, a lookup of the key returns the payload
/// in normal form under the key, whatever id the payload carried.
pub proof fn law_update_then_get(entries: Seq<JokeView>, id: Seq<char>, payload: JokeView)
    requires
        well_formed(entries),
        update_verdict(entries, id, payload) is Ok,
    ensures
        get_spec(after_update(entries, id, payload), id) == Ok::<JokeView, ErrView>(
            replacement(id, payload),
        ),
        replacement(id, payload).id == id,
{
    let p = position(entries, id);
    let next = after_update(entries, id, payload);
    lemma_after_update(entries, id, payload);
    assert(next[p] == replacement(id, payload));
    lemma_position(next, p);
}

/// After any update, successful or not, the record that a lookup of the key
/// returns has that key as its id.
pub proof fn law_update_preserves_key(entries: Seq<JokeView>, id: Seq<char>, payload: JokeView)
    requires
        well_formed(entries),
    ensures
        get_spec(after_update(entries, id, payload), id) matches Ok(r) ==> r.id == id,
        holds(after_update(entries, id, payload), id) == holds(entries, id),
{
    if update_verdict(entries, id, payload) is Ok {
        law_update_then_get(entries, id, payload);
    }
}

/// An update touches no other record.
pub proof fn law_update_keeps_others(
    entries: Seq<JokeView>,
    id: Seq<char>,
    payload: JokeView,
    other: Seq<char>,
)
    requires
        well_formed(entries),
        other != id,
    ensures
        get_spec(after_update(entries, id, payload), other) == get_spec(entries, other),
{
    if update_verdict(entries, id, payload) is Ok {
        let p = position(entries, id);
        let next = after_update(entries, id, payload);
        lemma_after_update(entries, id, payload);
        if holds(entries, other) {
            let q = position(entries, other);
            assert(next[q] == entries[q]);
            lemma_position(next, q);
        } else if holds(next, other) {
            let q = position(next, other);
            assert(entries[q].id == next[q].id);
        }
    }
}

/// Picking from a store without records fails with `NoJoke`, whatever the
/// draw.
pub proof fn law_pick_from_empty(draw: int)
    ensures
        pick_spec(Seq::<JokeView>::empty(), draw) == Err::<JokeView, ErrView>(ErrView::NoJoke),
{
}

/// After one record was added to a store without records, every draw picks
/// that record.
pub proof fn law_pick_the_only_one(j: JokeView, draw: int)
    requires
        add_verdict(Seq::<JokeView>::empty(), j) is Ok,
    ensures
        pick_spec(after_add(Seq::<JokeView>::empty(), j), draw) == Ok::<JokeView, ErrView>(
            j.normal(),
        ),
{
    let next = after_add(Seq::<JokeView>::empty(), j);
    assert(next.len() == 1);
    assert(draw % 1 == 0);
}

/// A draw picks a record that is held, and every record that is held is
/// picked by some draw: with `n` records, record `i` by the draw `i`.
pub proof fn law_pick_reaches_all(entries: Seq<JokeView>, i: int)
    requires
        0 <= i < entries.len(),
    ensures
        pick_spec(entries, i) == Ok::<JokeView, ErrView>(entries[i]),
        forall|draw: int|
            0 <= draw ==> (#[trigger] pick_spec(entries, draw)) is Ok && holds(
                entries,
                pick_spec(entries, draw)->Ok_0.id,
            ),
{
    let n = entries.len() as int;
    assert(i % n == i) by (nonlinear_arith)
        requires
            0 <= i < n,
    ;
    assert forall|draw: int| 0 <= draw implies (#[trigger] pick_spec(entries, draw)) is Ok
        && holds(entries, pick_spec(entries, draw)->Ok_0.id) by {
        let k = draw % n;
        assert(0 <= k < n) by (nonlinear_arith)
            requires
                0 <= draw,
                n > 0,
                k == draw % n,
        ;
        assert(entries[k].id == entries[k].id);
    }
}

/// A delete that fails, an add that fails and an update that fails leave the
/// store as it was.
pub proof fn law_failure_changes_nothing(
    entries: Seq<JokeView>,
    id: Seq<char>,
    payload: JokeView,
)
    ensures
        add_verdict(entries, payload) is Err ==> after_add(entries, payload) == entries,
        update_verdict(entries, id, payload) is Err ==> after_update(entries, id, payload)
            == entries,
        delete_verdict(entries, id) is Err ==> after_delete(entries, id) == entries,
{
}


/// The records by their id are a map with one key for each record, and a
/// lookup returns what the map holds under the id.
pub proof fn law_records_by_id(entries: Seq<JokeView>, id: Seq<char>)
    requires
        well_formed(entries),
    ensures
        as_map(entries).dom().finite(),
        as_map(entries).dom().len() == entries.len(),
        get_spec(entries, id) == (if as_map(entries).dom().contains(id) {
            Ok::<JokeView, ErrView>(as_map(entries)[id])
        } else {
            Err::<JokeView, ErrView>(ErrView::JokeDoesNotExist(id))
        }),
{
    lemma_as_map(entries);
}

/// What is loaded is a well-formed store, whatever was read.
pub proof fn law_load_is_well_formed(records: Seq<JokeView>)
    ensures
        load_spec(records) matches Ok(held) ==> well_formed(held),
    decreases records.len(),
{
    if records.len() > 0 {
        law_load_is_well_formed(records.drop_last());
        if let Ok(held) = load_spec(records.drop_last()) {
            lemma_after_add(held, records.last());
        }
    }
}

/// Loading the records of a store gives that store back: what was written
/// whole is read as it was.
pub proof fn law_load_of_stored(entries: Seq<JokeView>)
    requires
        well_formed(entries),
    ensures
        load_spec(entries) == Ok::<Seq<JokeView>, ErrView>(entries),
    decreases entries.len(),
{
    if entries.len() == 0 {
        assert(entries =~= Seq::<JokeView>::empty());
    } else {
        let head = entries.drop_last();
        let last = entries.last();
        assert(well_formed(head)) by {
            assert forall|i: int, j: int| 0 <= i < j < head.len() implies (#[trigger] head[i]).id
                != (#[trigger] head[j]).id by {
                assert(head[i] == entries[i] && head[j] == entries[j]);
            }
            assert forall|i: int| 0 <= i < head.len() implies (#[trigger] head[i]).is_valid()
                && head[i].is_normal() by {
                assert(head[i] == entries[i]);
            }
        }
        law_load_of_stored(head);
        assert(last == entries[entries.len() - 1]);
        assert(!holds(head, last.id)) by {
            if holds(head, last.id) {
                let p = position(head, last.id);
                assert(entries[p].id == entries[entries.len() - 1].id);
            }
        }
        lemma_normal_form(last);
        assert(head.push(last) =~= entries);
    }
}

/// A list that is kept as a set holds exactly the elements of the list, each
/// once: this is what `Joke::new` and `Joke::from_row` do to their tags.
pub proof fn law_dedup(s: Seq<Seq<char>>)
    ensures
        distinct(dedup(s)),
        dedup(s).len() <= s.len(),
        forall|x: Seq<char>| dedup(s).contains(x) <==> s.contains(x),
    decreases s.len(),
{
    if s.len() > 0 {
        let head = s.drop_last();
        law_dedup(head);
        let before = dedup(head);
        assert forall|x: Seq<char>| dedup(s).contains(x) <==> s.contains(x) by {
            if s.contains(x) {
                let i = choose|i: int| 0 <= i < s.len() && s[i] == x;
                if i < s.len() - 1 {
                    assert(head[i] == x);
                    assert(head.contains(x));
                    assert(before.contains(x));
                    let j = choose|j: int| 0 <= j < before.len() && before[j] == x;
                    assert(dedup(s)[j] == x);
                } else {
                    if !before.contains(x) {
                        assert(dedup(s)[before.len() as int] == x);
                    }
                }
            }
            if dedup(s).contains(x) {
                let j = choose|j: int| 0 <= j < dedup(s).len() && dedup(s)[j] == x;
                if j < before.len() {
                    assert(before[j] == x);
                    assert(before.contains(x));
                    assert(head.contains(x));
                    let i = choose|i: int| 0 <= i < head.len() && head[i] == x;
                    assert(s[i] == x);
                } else {
                    assert(s[s.len() - 1] == x);
                }
            }
        }
    }
}

} // verus!
