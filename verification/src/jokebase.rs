//! The joke store: the one place that owns the records, keeps their ids
//! unique and hands out copies.

use crate::joke::{Joke, JokeView};
use crate::model::{
    add_verdict, after_add, after_delete, after_update, as_map, delete_verdict, get_spec, holds,
    lemma_after_add, lemma_after_delete, lemma_after_update, lemma_position, pick_spec, position,
    replacement, update_verdict, well_formed, ErrView,
};
use vstd::prelude::*;
use vstd::string::*;

verus! {

/// Why an operation of the store failed.
#[derive(Debug)]
pub enum JokeBaseErr {
    /// A record with this id is already held.
    JokeExists(String),
    /// The backing file could not be written.
    JokeBaseIoError(String),
    /// The store holds no record.
    NoJoke,
    /// No record with this id is held.
    JokeDoesNotExist(String),
    /// The record has an empty required field.
    JokeUnprocessable(String),
    /// The database refused or failed.
    DatabaseError(String),
}

impl View for JokeBaseErr {
    type V = ErrView;

    open spec fn view(&self) -> ErrView {
        match self {
            JokeBaseErr::JokeExists(s) => ErrView::JokeExists(s@),
            JokeBaseErr::JokeBaseIoError(s) => ErrView::JokeBaseIoError(s@),
            JokeBaseErr::NoJoke => ErrView::NoJoke,
            JokeBaseErr::JokeDoesNotExist(s) => ErrView::JokeDoesNotExist(s@),
            JokeBaseErr::JokeUnprocessable(s) => ErrView::JokeUnprocessable(s@),
            JokeBaseErr::DatabaseError(s) => ErrView::DatabaseError(s@),
        }
    }
}

/// The sentence that an error is reported with.
pub open spec fn message_of(e: ErrView) -> Seq<char> {
    match e {
        ErrView::JokeExists(id) => "joke already exists: "@ + id,
        ErrView::JokeBaseIoError(detail) => "jokebase io failed: "@ + detail,
        ErrView::NoJoke => "no joke"@,
        ErrView::JokeDoesNotExist(id) => "joke "@ + id + " doesn't exist"@,
        ErrView::JokeUnprocessable(why) => "joke payload unprocessable: "@ + why,
        ErrView::DatabaseError(detail) => "database error: "@ + detail,
    }
}

impl Clone for JokeBaseErr {
    fn clone(&self) -> (r: JokeBaseErr)
        ensures
            r@ == self@,
    {
        match self {
            JokeBaseErr::JokeExists(s) => JokeBaseErr::JokeExists(s.clone()),
            JokeBaseErr::JokeBaseIoError(s) => JokeBaseErr::JokeBaseIoError(s.clone()),
            JokeBaseErr::NoJoke => JokeBaseErr::NoJoke,
            JokeBaseErr::JokeDoesNotExist(s) => JokeBaseErr::JokeDoesNotExist(s.clone()),
            JokeBaseErr::JokeUnprocessable(s) => JokeBaseErr::JokeUnprocessable(s.clone()),
            JokeBaseErr::DatabaseError(s) => JokeBaseErr::DatabaseError(s.clone()),
        }
    }
}

impl JokeBaseErr {
    /// The sentence that the error is reported with.
    pub fn message(&self) -> (r: String)
        ensures
            r@ == message_of(self@),
    {
        match self {
            JokeBaseErr::JokeExists(id) => {
                let mut r = "joke already exists: ".to_owned();
                r.append(id.as_str());
                r
            },
            JokeBaseErr::JokeBaseIoError(detail) => {
                let mut r = "jokebase io failed: ".to_owned();
                r.append(detail.as_str());
                r
            },
            JokeBaseErr::NoJoke => "no joke".to_owned(),
            JokeBaseErr::JokeDoesNotExist(id) => {
                let mut r = "joke ".to_owned();
                r.append(id.as_str());
                r.append(" doesn't exist");
                r
            },
            JokeBaseErr::JokeUnprocessable(why) => {
                let mut r = "joke payload unprocessable: ".to_owned();
                r.append(why.as_str());
                r
            },
            JokeBaseErr::DatabaseError(detail) => {
                let mut r = "database error: ".to_owned();
                r.append(detail.as_str());
                r
            },
        }
    }
}

/// The views of a sequence of records.
pub open spec fn joke_views(v: Seq<Joke>) -> Seq<JokeView> {
    Seq::new(v.len(), |i: int| v[i]@)
}

/// What a lookup returned, as plain values.
pub open spec fn found(r: Result<Joke, JokeBaseErr>) -> Result<JokeView, ErrView> {
    match r {
        Ok(j) => Ok(j@),
        Err(e) => Err(e@),
    }
}

/// What a mutation returned, as plain values.
pub open spec fn done(r: Result<(), JokeBaseErr>) -> Result<(), ErrView> {
    match r {
        Ok(_) => Ok(()),
        Err(e) => Err(e@),
    }
}

/// The store. Its records are private: callers get copies, and change the
/// store only through `add`, `update` and `delete`.
#[derive(Debug)]
pub struct JokeBase {
    jokes: Vec<Joke>,
}

impl View for JokeBase {
    type V = Seq<JokeView>;

    /// The records in the order they were added.
    closed spec fn view(&self) -> Seq<JokeView> {
        joke_views(self.jokes@)
    }
}

impl JokeBase {
    #[verifier::type_invariant]
    spec fn sound(self) -> bool {
        well_formed(joke_views(self.jokes@))
    }

    /// The records by their id.
    pub open spec fn by_id(&self) -> Map<Seq<char>, JokeView> {
        as_map(self@)
    }

    /// A store without records.
    pub fn new() -> (r: JokeBase)
        ensures
            r@ == Seq::<JokeView>::empty(),
    {
        let r = JokeBase { jokes: Vec::new() };
        assert(r@ =~= Seq::<JokeView>::empty());
        r
    }

    /// The number of records held.
    pub fn len(&self) -> (n: usize)
        ensures
            n == self@.len(),
            well_formed(self@),
    {
        proof {
            use_type_invariant(self);
        }
        self.jokes.len()
    }

    /// Moves the records out, leaving the store empty until they are put
    /// back.
    fn take_records(&mut self) -> (jokes: Vec<Joke>)
        ensures
            joke_views(jokes@) == old(self)@,
            final(self)@ == Seq::<JokeView>::empty(),
    {
        let mut jokes: Vec<Joke> = Vec::new();
        assert(joke_views(jokes@) =~= Seq::<JokeView>::empty());
        core::mem::swap(&mut self.jokes, &mut jokes);
        jokes
    }

    /// Where the record with the id `index` is held, if it is.
    fn find(&self, index: &str) -> (r: Option<usize>)
        ensures
            well_formed(self@),
            r is Some <==> holds(self@, index@),
            r matches Some(i) ==> i < self@.len() && i == position(self@, index@),
    {
        proof {
            use_type_invariant(self);
        }
        let n: usize = self.jokes.len();
        let mut i: usize = 0;
        while i < n
            invariant
                n == self.jokes.len(),
                i <= n,
                well_formed(self@),
                forall|k: int| 0 <= k < i ==> (#[trigger] self@[k]).id != index@,
            decreases n - i,
        {
            if crate::text::str_eq(self.jokes[i].id.as_str(), index) {
                proof {
                    assert(self@[i as int].id == index@);
                    lemma_position(self@, i as int);
                }
                return Some(i);
            }
            i += 1;
        }
        None
    }

    /// A copy of every record, in the order they were added. This never
    /// fails.
    pub fn get_jokes(&self) -> (r: Result<Vec<Joke>, JokeBaseErr>)
        ensures
            well_formed(self@),
            r matches Ok(list) && joke_views(list@) == self@,
    {
        proof {
            use_type_invariant(self);
        }
        let n: usize = self.jokes.len();
        let mut list: Vec<Joke> = Vec::new();
        let mut i: usize = 0;
        while i < n
            invariant
                n == self.jokes.len(),
                i <= n,
                list.len() == i,
                forall|k: int| 0 <= k < i ==> (#[trigger] list@[k])@ == self.jokes@[k]@,
            decreases n - i,
        {
            list.push(self.jokes[i].clone());
            i += 1;
        }
        assert(joke_views(list@) =~= self@);
        Ok(list)
    }

    /// A copy of the record with the id `index`, or `JokeDoesNotExist`.
    pub fn get(&self, index: &str) -> (r: Result<Joke, JokeBaseErr>)
        ensures
            well_formed(self@),
            found(r) == get_spec(self@, index@),
    {
        match self.find(index) {
            Some(i) => Ok(self.jokes[i].clone()),
            None => Err(JokeBaseErr::JokeDoesNotExist(index.to_owned())),
        }
    }

    /// A copy of the record that the draw `draw` picks, or `NoJoke` where
    /// the store is empty. With `n` records held, record `i` is picked by the
    /// draws that leave `i` when divided by `n`: a uniform draw picks
    /// uniformly among the records, whatever their order.
    pub fn get_random(&self, draw: usize) -> (r: Result<Joke, JokeBaseErr>)
        ensures
            well_formed(self@),
            found(r) == pick_spec(self@, draw as int),
    {
        proof {
            use_type_invariant(self);
        }
        let n: usize = self.jokes.len();
        if n == 0 {
            Err(JokeBaseErr::NoJoke)
        } else {
            Ok(self.jokes[draw % n].clone())
        }
    }

    /// Adds `joke` in normal form under its id. An id that is already held
    /// gives `JokeExists`, an empty required field `JokeUnprocessable`; the
    /// store is then left as it was.
    pub fn add(&mut self, joke: Joke) -> (r: Result<(), JokeBaseErr>)
        ensures
            done(r) == add_verdict(old(self)@, joke@),
            final(self)@ == after_add(old(self)@, joke@),
            well_formed(final(self)@),
    {
        proof {
            use_type_invariant(&*self);
            lemma_after_add(self@, joke@);
        }
        if self.find(joke.id.as_str()).is_some() {
            return Err(JokeBaseErr::JokeExists(joke.id));
        }
        match joke.defect() {
            Some(why) => Err(JokeBaseErr::JokeUnprocessable(why)),
            None => {
                let ghost before = self@;
                let record = joke.normalize();
                let mut jokes = self.take_records();
                jokes.push(record);
                assert(joke_views(jokes@) =~= before.push(joke@.normal()));
                self.jokes = jokes;
                Ok(())
            },
        }
    }

    /// Removes the record with the id `index`, or gives `JokeDoesNotExist`.
    pub fn delete(&mut self, index: &str) -> (r: Result<(), JokeBaseErr>)
        ensures
            done(r) == delete_verdict(old(self)@, index@),
            final(self)@ == after_delete(old(self)@, index@),
            well_formed(final(self)@),
    {
        proof {
            use_type_invariant(&*self);
            lemma_after_delete(self@, index@);
        }
        match self.find(index) {
            Some(i) => {
                let ghost before = self@;
                let mut jokes = self.take_records();
                let _ = jokes.remove(i);
                assert(joke_views(jokes@) =~= before.remove(i as int));
                self.jokes = jokes;
                Ok(())
            },
            None => Err(JokeBaseErr::JokeDoesNotExist(index.to_owned())),
        }
    }

    /// Replaces the record with the id `index` by `joke` in normal form. The
    /// record stays under `index`: the id inside `joke` is not used, though
    /// it must not be empty. A missing `index` gives `JokeDoesNotExist`, an
    /// empty required field `JokeUnprocessable`; the store is then left as
    /// it was.
    pub fn update(&mut self, index: &str, joke: Joke) -> (r: Result<(), JokeBaseErr>)
        ensures
            done(r) == update_verdict(old(self)@, index@, joke@),
            final(self)@ == after_update(old(self)@, index@, joke@),
            well_formed(final(self)@),
    {
        proof {
            use_type_invariant(&*self);
            lemma_after_update(self@, index@, joke@);
        }
        match self.find(index) {
            Some(i) => match joke.defect() {
                Some(why) => Err(JokeBaseErr::JokeUnprocessable(why)),
                None => {
                    let ghost before = self@;
                    let mut record = joke.normalize();
                    record.id = index.to_owned();
                    assert(record@ == replacement(index@, joke@));
                    let mut jokes = self.take_records();
                    jokes.set(i, record);
                    assert(joke_views(jokes@) =~= before.update(
                        i as int,
                        replacement(index@, joke@),
                    ));
                    self.jokes = jokes;
                    Ok(())
                },
            },
            None => Err(JokeBaseErr::JokeDoesNotExist(index.to_owned())),
        }
    }
}

/// The store that the records of `records` give when they are added one
/// after the other, or the error of the first that cannot be added.
pub open spec fn load_spec(records: Seq<JokeView>) -> Result<Seq<JokeView>, ErrView>
    decreases records.len(),
{
    if records.len() == 0 {
        Ok(Seq::<JokeView>::empty())
    } else {
        match load_spec(records.drop_last()) {
            Err(e) => Err(e),
            Ok(held) => match add_verdict(held, records.last()) {
                Err(e) => Err(e),
                Ok(_) => Ok(after_add(held, records.last())),
            },
        }
    }
}

/// What `JokeBase::load` returned, as plain values.
pub open spec fn loaded(r: Result<JokeBase, JokeBaseErr>) -> Result<Seq<JokeView>, ErrView> {
    match r {
        Ok(base) => Ok(base@),
        Err(e) => Err(e@),
    }
}

impl JokeBase {
    /// The whole collection as one JSON document.
    pub fn document(&self) -> (r: String)
        ensures
            r@ == crate::json::document(self@),
    {
        crate::json::to_document(&self.jokes)
    }

    /// A store of the given records, added in their order. A record that
    /// cannot be added (an id held twice, an empty required field) makes
    /// the whole load fail with the error of that record: what was read is
    /// then not a collection that this store wrote.
    pub fn load(records: Vec<Joke>) -> (r: Result<JokeBase, JokeBaseErr>)
        ensures
            loaded(r) == load_spec(joke_views(records@)),
    {
        let mut base = JokeBase::new();
        let ghost all = joke_views(records@);
        let n: usize = records.len();
        let mut i: usize = 0;
        assert(all.take(0) =~= Seq::<JokeView>::empty());
        while i < n
            invariant
                i <= n,
                n == records.len(),
                all == joke_views(records@),
                load_spec(all.take(i as int)) == Ok::<Seq<JokeView>, ErrView>(base@),
            decreases n - i,
        {
            proof {
                let cur = all.take(i as int + 1);
                assert(cur.drop_last() =~= all.take(i as int));
                assert(cur.last() == all[i as int]);
            }
            match base.add(records[i].clone()) {
                Ok(_) => {},
                Err(e) => {
                    proof {
                        assert(load_spec(all.take(i as int + 1)) == Err::<
                            Seq<JokeView>,
                            ErrView,
                        >(e@));
                        lemma_load_fails_on(all, i as int + 1);
                    }
                    return Err(e);
                },
            }
            i += 1;
        }
        assert(all.take(n as int) =~= all);
        Ok(base)
    }
}

/// Once a prefix of the records fails to load, so does the whole.
pub proof fn lemma_load_fails_on(records: Seq<JokeView>, k: int)
    requires
        0 <= k <= records.len(),
        load_spec(records.take(k)) is Err,
    ensures
        load_spec(records) == load_spec(records.take(k)),
    decreases records.len() - k,
{
    if k == records.len() {
        assert(records.take(k) =~= records);
    } else {
        let longer = records.take(k + 1);
        assert(longer.drop_last() =~= records.take(k));
        lemma_load_fails_on(records, k + 1);
    }
}

impl Clone for JokeBase {
    fn clone(&self) -> (r: JokeBase)
        ensures
            r@ == self@,
    {
        proof {
            use_type_invariant(self);
        }
        let n: usize = self.jokes.len();
        let mut jokes: Vec<Joke> = Vec::new();
        let mut i: usize = 0;
        while i < n
            invariant
                n == self.jokes.len(),
                i <= n,
                jokes.len() == i,
                forall|k: int| 0 <= k < i ==> (#[trigger] jokes@[k])@ == self.jokes@[k]@,
            decreases n - i,
        {
            jokes.push(self.jokes[i].clone());
            i += 1;
        }
        assert(joke_views(jokes@) =~= joke_views(self.jokes@));
        JokeBase { jokes }
    }
}

} // verus!
