//! The store as mathematics: the records it holds, in the order they were
//! added, and what each operation returns and leaves behind.
//!
//! Both backends are held to these functions, and the laws of the store are
//! stated over them.

use crate::joke::{defect_of, JokeView};
use vstd::prelude::*;

verus! {

/// What an error says, as plain values.
pub ghost enum ErrView {
    JokeExists(Seq<char>),
    JokeBaseIoError(Seq<char>),
    NoJoke,
    JokeDoesNotExist(Seq<char>),
    JokeUnprocessable(Seq<char>),
    DatabaseError(Seq<char>),
}

/// Whether a record with this id is among `entries`.
pub open spec fn holds(entries: Seq<JokeView>, id: Seq<char>) -> bool {
    exists|i: int| 0 <= i < entries.len() && (#[trigger] entries[i]).id == id
}

/// A place at which `entries` has a record with this id, where there is one.
pub open spec fn position(entries: Seq<JokeView>, id: Seq<char>) -> int {
    choose|i: int| 0 <= i < entries.len() && (#[trigger] entries[i]).id == id
}

/// Whether no two records share an id.
pub open spec fn unique_ids(entries: Seq<JokeView>) -> bool {
    forall|i: int, j: int|
        0 <= i < j < entries.len() ==> (#[trigger] entries[i]).id != (#[trigger] entries[j]).id
}

/// Whether every record may be stored and is in normal form.
pub open spec fn all_sound(entries: Seq<JokeView>) -> bool {
    forall|i: int|
        0 <= i < entries.len() ==> (#[trigger] entries[i]).is_valid() && entries[i].is_normal()
}

/// What a store must be at all times: ids are unique, and every record is
/// valid and in normal form.
pub open spec fn well_formed(entries: Seq<JokeView>) -> bool {
    unique_ids(entries) && all_sound(entries)
}

/// The records by their id.
pub open spec fn as_map(entries: Seq<JokeView>) -> Map<Seq<char>, JokeView> {
    Map::new(|id: Seq<char>| holds(entries, id), |id: Seq<char>| entries[position(entries, id)])
}

/// What looking up `id` returns.
pub open spec fn get_spec(entries: Seq<JokeView>, id: Seq<char>) -> Result<JokeView, ErrView> {
    if holds(entries, id) {
        Ok(entries[position(entries, id)])
    } else {
        Err(ErrView::JokeDoesNotExist(id))
    }
}

/// What picking a record with the draw `draw` returns: each record of a
/// store of `n` records is picked by exactly the draws of one residue
/// modulo `n`.
pub open spec fn pick_spec(entries: Seq<JokeView>, draw: int) -> Result<JokeView, ErrView> {
    if entries.len() == 0 {
        Err(ErrView::NoJoke)
    } else {
        Ok(entries[draw % (entries.len() as int)])
    }
}

/// Whether adding `j` succeeds, and the error if it does not. An id that is
/// already held is refused first, a record with an empty required field
/// after that.
pub open spec fn add_verdict(entries: Seq<JokeView>, j: JokeView) -> Result<(), ErrView> {
    if holds(entries, j.id) {
        Err(ErrView::JokeExists(j.id))
    } else {
        match defect_of(j) {
            Some(why) => Err(ErrView::JokeUnprocessable(why)),
            None => Ok(()),
        }
    }
}

/// The store after an attempt to add `j`.
pub open spec fn after_add(entries: Seq<JokeView>, j: JokeView) -> Seq<JokeView> {
    if add_verdict(entries, j) is Ok {
        entries.push(j.normal())
    } else {
        entries
    }
}

/// Whether replacing the record under `id` by `j` succeeds, and the error if
/// it does not. A missing id is refused first, a payload with an empty
/// required field after that.
pub open spec fn update_verdict(entries: Seq<JokeView>, id: Seq<char>, j: JokeView) -> Result<
    (),
    ErrView,
> {
    if !holds(entries, id) {
        Err(ErrView::JokeDoesNotExist(id))
    } else {
        match defect_of(j) {
            Some(why) => Err(ErrView::JokeUnprocessable(why)),
            None => Ok(()),
        }
    }
}

/// The record that an update stores under `id`: the payload in normal form,
/// under the key. The key wins over the id inside the payload.
pub open spec fn replacement(id: Seq<char>, j: JokeView) -> JokeView {
    j.normal().with_id(id)
}

/// The store after an attempt to replace the record under `id` by `j`.
pub open spec fn after_update(entries: Seq<JokeView>, id: Seq<char>, j: JokeView) -> Seq<
    JokeView,
> {
    if update_verdict(entries, id, j) is Ok {
        entries.update(position(entries, id), replacement(id, j))
    } else {
        entries
    }
}

/// Whether deleting the record under `id` succeeds, and the error if not.
pub open spec fn delete_verdict(entries: Seq<JokeView>, id: Seq<char>) -> Result<(), ErrView> {
    if holds(entries, id) {
        Ok(())
    } else {
        Err(ErrView::JokeDoesNotExist(id))
    }
}

/// The store after an attempt to delete the record under `id`.
pub open spec fn after_delete(entries: Seq<JokeView>, id: Seq<char>) -> Seq<JokeView> {
    if holds(entries, id) {
        entries.remove(position(entries, id))
    } else {
        entries
    }
}

/// With unique ids, a record's id is found at that record's place.
pub proof fn lemma_position(entries: Seq<JokeView>, i: int)
    requires
        unique_ids(entries),
        0 <= i < entries.len(),
    ensures
        holds(entries, entries[i].id),
        position(entries, entries[i].id) == i,
{
    let id = entries[i].id;
    let p = position(entries, id);
    assert(0 <= p < entries.len() && entries[p].id == id);
    if p < i {
        assert(entries[p].id != entries[i].id);
    } else if i < p {
        assert(entries[i].id != entries[p].id);
    }
}

/// The map of a store with unique ids has one key for each record.
pub proof fn lemma_as_map(entries: Seq<JokeView>)
    requires
        unique_ids(entries),
    ensures
        as_map(entries).dom().finite(),
        as_map(entries).dom().len() == entries.len(),
        forall|i: int|
            0 <= i < entries.len() ==> as_map(entries).dom().contains((#[trigger] entries[i]).id)
                && as_map(entries)[entries[i].id] == entries[i],
    decreases entries.len(),
{
    assert forall|i: int| 0 <= i < entries.len() implies as_map(entries).dom().contains(
        (#[trigger] entries[i]).id,
    ) && as_map(entries)[entries[i].id] == entries[i] by {
        lemma_position(entries, i);
    }
    if entries.len() == 0 {
        assert(as_map(entries).dom() =~= Set::<Seq<char>>::empty());
    } else {
        let head = entries.drop_last();
        let last = entries.last();
        assert(unique_ids(head)) by {
            assert forall|i: int, j: int| 0 <= i < j < head.len() implies (#[trigger] head[i]).id
                != (#[trigger] head[j]).id by {
                assert(head[i] == entries[i] && head[j] == entries[j]);
            }
        }
        lemma_as_map(head);
        assert(!holds(head, last.id)) by {
            if holds(head, last.id) {
                let p = position(head, last.id);
                assert(entries[p].id == entries[entries.len() - 1].id);
            }
        }
        assert(as_map(entries).dom() =~= as_map(head).dom().insert(last.id)) by {
            assert forall|id: Seq<char>| holds(entries, id) <==> (holds(head, id) || id
                == last.id) by {
                if holds(entries, id) {
                    let p = position(entries, id);
                    if p < head.len() {
                        assert(head[p].id == id);
                    }
                }
                if holds(head, id) {
                    let p = position(head, id);
                    assert(entries[p].id == id);
                }
                if id == last.id {
                    assert(entries[entries.len() - 1].id == id);
                }
            }
        }
    }
}

/// Adding leaves a well-formed store, and as a map it is the old one with
/// the new record inserted, or the old one.
pub proof fn lemma_after_add(entries: Seq<JokeView>, j: JokeView)
    requires
        well_formed(entries),
    ensures
        well_formed(after_add(entries, j)),
        add_verdict(entries, j) is Ok ==> as_map(after_add(entries, j)) == as_map(entries).insert(
            j.id,
            j.normal(),
        ),
        add_verdict(entries, j) is Err ==> after_add(entries, j) == entries,
{
    if add_verdict(entries, j) is Ok {
        let next = entries.push(j.normal());
        crate::joke::lemma_normal_form(j);
        assert forall|a: int, b: int| 0 <= a < b < next.len() implies (#[trigger] next[a]).id != (
        #[trigger] next[b]).id by {
            if b < entries.len() {
                assert(next[a] == entries[a] && next[b] == entries[b]);
            } else {
                assert(next[a] == entries[a]);
            }
        }
        assert forall|i: int| 0 <= i < next.len() implies (#[trigger] next[i]).is_valid()
            && next[i].is_normal() by {
            if i < entries.len() {
                assert(next[i] == entries[i]);
            }
        }
        assert forall|id: Seq<char>| holds(next, id) <==> (holds(entries, id) || id == j.id) by {
            if holds(next, id) {
                let p = position(next, id);
                if p < entries.len() {
                    assert(entries[p].id == id);
                }
            }
            if holds(entries, id) {
                let p = position(entries, id);
                assert(next[p].id == id);
            }
            if id == j.id {
                assert(next[next.len() - 1].id == id);
            }
        }
        assert forall|id: Seq<char>| holds(next, id) implies #[trigger] as_map(next)[id] == as_map(
            entries,
        ).insert(j.id, j.normal())[id] by {
            if id == j.id {
                lemma_position(next, next.len() - 1);
            } else {
                let p = position(entries, id);
                assert(next[p] == entries[p]);
                lemma_position(next, p);
            }
        }
        assert(as_map(next) =~= as_map(entries).insert(j.id, j.normal()));
    }
}

/// Replacing leaves a well-formed store, and as a map it is the old one
/// with the replacement under the key, or the old one.
pub proof fn lemma_after_update(entries: Seq<JokeView>, id: Seq<char>, j: JokeView)
    requires
        well_formed(entries),
    ensures
        well_formed(after_update(entries, id, j)),
        after_update(entries, id, j).len() == entries.len(),
        update_verdict(entries, id, j) is Ok ==> as_map(after_update(entries, id, j)) == as_map(
            entries,
        ).insert(id, replacement(id, j)),
        update_verdict(entries, id, j) is Err ==> after_update(entries, id, j) == entries,
{
    if update_verdict(entries, id, j) is Ok {
        let p = position(entries, id);
        let r = replacement(id, j);
        let next = entries.update(p, r);
        crate::joke::lemma_normal_form(j);
        assert(entries[p].id == id);
        assert(entries[p].is_valid());
        assert forall|a: int, b: int| 0 <= a < b < next.len() implies (#[trigger] next[a]).id != (
        #[trigger] next[b]).id by {
            assert(next[a].id == entries[a].id && next[b].id == entries[b].id);
        }
        assert forall|i: int| 0 <= i < next.len() implies (#[trigger] next[i]).is_valid()
            && next[i].is_normal() by {
            if i != p {
                assert(next[i] == entries[i]);
            }
        }
        assert forall|k: Seq<char>| holds(next, k) <==> holds(entries, k) by {
            if holds(next, k) {
                let q = position(next, k);
                assert(entries[q].id == k);
            }
            if holds(entries, k) {
                let q = position(entries, k);
                assert(next[q].id == k);
            }
        }
        assert forall|k: Seq<char>| holds(next, k) implies #[trigger] as_map(next)[k] == as_map(
            entries,
        ).insert(id, r)[k] by {
            let q = position(entries, k);
            assert(next[q].id == k);
            lemma_position(next, q);
            lemma_position(entries, q);
        }
        assert(as_map(next) =~= as_map(entries).insert(id, r));
    }
}

/// Deleting leaves a well-formed store, and as a map it is the old one
/// without the key.
pub proof fn lemma_after_delete(entries: Seq<JokeView>, id: Seq<char>)
    requires
        well_formed(entries),
    ensures
        well_formed(after_delete(entries, id)),
        !holds(after_delete(entries, id), id),
        as_map(after_delete(entries, id)) == as_map(entries).remove(id),
        delete_verdict(entries, id) is Err ==> after_delete(entries, id) == entries,
{
    if holds(entries, id) {
        let p = position(entries, id);
        let next = entries.remove(p);
        assert forall|i: int| 0 <= i < next.len() implies #[trigger] next[i] == entries[if i < p {
            i
        } else {
            i + 1
        }] by {}
        assert forall|a: int, b: int| 0 <= a < b < next.len() implies (#[trigger] next[a]).id != (
        #[trigger] next[b]).id by {
            let a0 = if a < p { a } else { a + 1 };
            let b0 = if b < p { b } else { b + 1 };
            assert(next[a] == entries[a0] && next[b] == entries[b0]);
        }
        assert forall|i: int| 0 <= i < next.len() implies (#[trigger] next[i]).is_valid()
            && next[i].is_normal() by {
            let i0 = if i < p { i } else { i + 1 };
            assert(next[i] == entries[i0]);
        }
        assert forall|k: Seq<char>| holds(next, k) <==> (holds(entries, k) && k != id) by {
            if holds(next, k) {
                let q = position(next, k);
                let q0 = if q < p { q } else { q + 1 };
                assert(next[q] == entries[q0]);
                assert(entries[q0].id == k);
                if k == id {
                    lemma_position(entries, q0);
                }
            }
            if holds(entries, k) && k != id {
                let q = position(entries, k);
                let q1 = if q < p { q } else { q - 1 };
                assert(next[q1] == entries[q]);
                assert(next[q1].id == k);
            }
        }
        assert forall|k: Seq<char>| holds(next, k) implies #[trigger] as_map(next)[k] == as_map(
            entries,
        ).remove(id)[k] by {
            let q = position(next, k);
            let q0 = if q < p { q } else { q + 1 };
            assert(next[q] == entries[q0]);
            lemma_position(entries, q0);
        }
        assert(as_map(next) =~= as_map(entries).remove(id));
    } else {
        assert(as_map(entries) =~= as_map(entries).remove(id));
    }
}

} // verus!
