//! The decisions of the file backend, which keeps the whole collection as
//! one JSON document and rewrites it on every change.
//!
//! A change is staged first: the store that the change would give and the
//! document to write are computed, and the store in memory stays as it is.
//! The caller writes and syncs the document and hands the outcome to
//! `commit`, which takes the staged store over only if the write succeeded.
//! The document is written in place, not to a second file that is renamed
//! over the first: a crash in the middle of a write can leave a short or
//! broken file, which `JokeBase::load` refuses when it is read back.

use crate::joke::{Joke, JokeView};
use crate::jokebase::{done, JokeBase, JokeBaseErr};
use crate::json::document;
use crate::model::{
    add_verdict, after_add, after_delete, after_update, delete_verdict, update_verdict, ErrView,
};
use vstd::prelude::*;
use vstd::string::*;

verus! {

/// A change that was accepted but is not durable yet.
pub struct Staged {
    next: JokeBase,
    text: String,
}

impl Staged {
    /// The records of the store once the change is durable.
    pub closed spec fn next(&self) -> Seq<JokeView> {
        self.next@
    }

    /// The document to write.
    pub closed spec fn text(&self) -> Seq<char> {
        self.text@
    }

    /// The document to write: the whole collection after the change.
    pub fn document(&self) -> (r: &str)
        ensures
            r@ == self.text(),
    {
        self.text.as_str()
    }
}

/// What staging returned, as plain values: the store to come and the
/// document to write, or the error.
pub open spec fn staged(r: Result<Staged, JokeBaseErr>) -> Result<
    (Seq<JokeView>, Seq<char>),
    ErrView,
> {
    match r {
        Ok(s) => Ok((s.next(), s.text())),
        Err(e) => Err(e@),
    }
}

/// What staging owes for a change with the verdict `verdict` that would
/// leave the records `next`.
pub open spec fn staged_spec(verdict: Result<(), ErrView>, next: Seq<JokeView>) -> Result<
    (Seq<JokeView>, Seq<char>),
    ErrView,
> {
    match verdict {
        Ok(_) => Ok((next, document(next))),
        Err(e) => Err(e),
    }
}

/// What to do at startup about the backing file.
#[derive(Debug)]
pub enum Startup {
    /// Serve the records that were read.
    Serve(JokeBase),
    /// Write a document without records, then serve an empty store.
    Create(JokeBase),
}

/// What `open` returned, as plain values.
pub open spec fn opened(r: Result<Startup, JokeBaseErr>) -> Result<(bool, Seq<JokeView>), ErrView> {
    match r {
        Ok(Startup::Serve(base)) => Ok((false, base@)),
        Ok(Startup::Create(base)) => Ok((true, base@)),
        Err(e) => Err(e@),
    }
}

/// What `open` owes: a file that was read is served if it holds records; a
/// missing file, or one without records, is replaced by an empty document
/// where that is allowed, and is an error where it is not.
pub open spec fn open_spec(found: Option<Seq<JokeView>>, allow_empty: bool) -> Result<
    (bool, Seq<JokeView>),
    ErrView,
> {
    match found {
        Some(records) => match crate::jokebase::load_spec(records) {
            Err(e) => Err(e),
            Ok(held) => if held.len() > 0 {
                Ok((false, held))
            } else if allow_empty {
                Ok((true, held))
            } else {
                Err(ErrView::NoJoke)
            },
        },
        None => if allow_empty {
            Ok((true, Seq::<JokeView>::empty()))
        } else {
            Err(ErrView::NoJoke)
        },
    }
}

/// The views of the records that were found, if a file was found.
pub open spec fn found_views(found: Option<Vec<Joke>>) -> Option<Seq<JokeView>> {
    match found {
        Some(v) => Some(crate::jokebase::joke_views(v@)),
        None => None,
    }
}

/// Decides what to do at startup. `found` holds the records of the backing
/// file, or nothing where there is no file.
pub fn open(found: Option<Vec<Joke>>, allow_empty: bool) -> (r: Result<Startup, JokeBaseErr>)
    ensures
        opened(r) == open_spec(found_views(found), allow_empty),
{
    match found {
        Some(records) => match JokeBase::load(records) {
            Err(e) => Err(e),
            Ok(base) => if base.len() > 0 {
                Ok(Startup::Serve(base))
            } else if allow_empty {
                Ok(Startup::Create(base))
            } else {
                Err(JokeBaseErr::NoJoke)
            },
        },
        None => if allow_empty {
            Ok(Startup::Create(JokeBase::new()))
        } else {
            Err(JokeBaseErr::NoJoke)
        },
    }
}

impl JokeBase {
    /// Stages the addition of `joke`. The store itself is not changed.
    pub fn stage_add(&self, joke: Joke) -> (r: Result<Staged, JokeBaseErr>)
        ensures
            staged(r) == staged_spec(add_verdict(self@, joke@), after_add(self@, joke@)),
    {
        let mut next = self.clone();
        match next.add(joke) {
            Ok(_) => {
                let text = next.document();
                Ok(Staged { next, text })
            },
            Err(e) => Err(e),
        }
    }

    /// Stages the replacement of the record under `index` by `joke`. The
    /// store itself is not changed.
    pub fn stage_update(&self, index: &str, joke: Joke) -> (r: Result<Staged, JokeBaseErr>)
        ensures
            staged(r) == staged_spec(
                update_verdict(self@, index@, joke@),
                after_update(self@, index@, joke@),
            ),
    {
        let mut next = self.clone();
        match next.update(index, joke) {
            Ok(_) => {
                let text = next.document();
                Ok(Staged { next, text })
            },
            Err(e) => Err(e),
        }
    }

    /// Stages the removal of the record under `index`. The store itself is
    /// not changed.
    pub fn stage_delete(&self, index: &str) -> (r: Result<Staged, JokeBaseErr>)
        ensures
            staged(r) == staged_spec(delete_verdict(self@, index@), after_delete(self@, index@)),
    {
        let mut next = self.clone();
        match next.delete(index) {
            Ok(_) => {
                let text = next.document();
                Ok(Staged { next, text })
            },
            Err(e) => Err(e),
        }
    }

    /// Ends a staged change. `written` is the outcome of writing and
    /// syncing the staged document. After a successful write the store
    /// holds the staged records; after a failed one it is left as it was,
    /// and the failure is reported as `JokeBaseIoError`.
    pub fn commit(&mut self, change: Staged, written: Result<(), String>) -> (r: Result<
        (),
        JokeBaseErr,
    >)
        ensures
            match written {
                Ok(_) => r is Ok && final(self)@ == change.next(),
                Err(detail) => done(r) == Err::<(), ErrView>(ErrView::JokeBaseIoError(detail@))
                    && final(self)@ == old(self)@,
            },
    {
        match written {
            Ok(_) => {
                *self = change.next;
                Ok(())
            },
            Err(detail) => Err(JokeBaseErr::JokeBaseIoError(detail)),
        }
    }
}

} // verus!
