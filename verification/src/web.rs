//! What the pages of the site show: the values that the templates are
//! filled with, the query parameters, and what each page answers to the
//! result of a store operation.

use crate::joke::{format_tags, normal_source, normal_tag_field, normalize_tags, tags_text, Joke, JokeView};
use crate::jokebase::{message_of, JokeBaseErr};
use crate::model::ErrView;
use crate::text::{opt_view, split, split_on, views};
use vstd::prelude::*;
use vstd::string::*;

verus! {

/// The path of the style sheet that every page links.
pub open spec fn stylesheet_path() -> Seq<char> {
    "/knock-knock.css"@
}

/// The values of the front page: a joke with its tags joined for display,
/// or an error.
#[derive(Debug)]
pub struct IndexTemplate<'a> {
    pub joke: Option<&'a Joke>,
    pub tags: Option<String>,
    pub stylesheet: &'static str,
    pub error: Option<String>,
}

impl<'a> IndexTemplate<'a> {
    /// The page that tells `joke`.
    pub fn joke(joke: &'a Joke) -> (r: Self)
        ensures
            r.joke == Some(joke),
            opt_view(r.tags) == (match joke@.tags {
                Some(t) => Some(tags_text(t)),
                None => None,
            }),
            r.stylesheet@ == stylesheet_path(),
            r.error is None,
    {
        Self {
            joke: Some(joke),
            tags: match &joke.tags {
                Some(t) => Some(format_tags(t)),
                None => None,
            },
            stylesheet: "/knock-knock.css",
            error: None,
        }
    }

    /// The page that shows `error` in place of a joke.
    pub fn error(error: String) -> (r: Self)
        ensures
            r.joke is None,
            r.tags is None,
            r.stylesheet@ == stylesheet_path(),
            r.error == Some(error),
    {
        Self { joke: None, tags: None, stylesheet: "/knock-knock.css", error: Some(error) }
    }
}

/// The query of the front page.
#[derive(Debug)]
pub struct IndexParams {
    pub id: Option<String>,
}

/// The values of the page on which a joke is entered.
#[derive(Debug)]
pub struct TellTemplate {
    pub stylesheet: &'static str,
    pub error: Option<String>,
}

impl TellTemplate {
    /// The page, with the error of the last attempt if there was one.
    pub fn new(error: Option<String>) -> (r: Self)
        ensures
            r.stylesheet@ == stylesheet_path(),
            r.error == error,
    {
        Self { stylesheet: "/knock-knock.css", error }
    }
}

/// The query that adds a joke.
#[derive(Debug)]
pub struct AddParams {
    pub id: String,
    pub who: String,
    pub answer: String,
    pub tags: Option<String>,
    pub source: Option<String>,
}

/// The tag field that a comma-separated list stands for: its items in
/// normal form, or no field where there is no list or nothing is left.
pub open spec fn parsed_tags(tags: Option<Seq<char>>) -> Option<Seq<Seq<char>>> {
    match tags {
        Some(list) => if list.len() == 0 {
            None
        } else {
            normal_tag_field(Some(split_on(list, ',')))
        },
        None => None,
    }
}

/// The tags of a comma-separated list: each item trimmed, empty items
/// dropped, repeated items kept once. Where nothing is left there are no
/// tags.
pub fn parse_tags(tags: Option<String>) -> (r: Option<Vec<String>>)
    ensures
        (match r {
            Some(t) => Some(views(t@)),
            None => None,
        }) == parsed_tags(opt_view(tags)),
{
    match tags {
        Some(list) => {
            if list.as_str().is_empty() {
                None
            } else {
                let items = split(list.as_str(), ',');
                normalize_tags(&items)
            }
        },
        None => None,
    }
}

/// The source, where one is given and it is not empty.
pub fn parse_source(source: Option<String>) -> (r: Option<String>)
    ensures
        opt_view(r) == normal_source(opt_view(source)),
{
    match source {
        Some(s) => if s.as_str().is_empty() {
            None
        } else {
            Some(s)
        },
        None => None,
    }
}

impl AddParams {
    /// The record that the query describes.
    pub open spec fn record(self) -> JokeView {
        JokeView {
            id: self.id@,
            whos_there: self.who@,
            answer_who: self.answer@,
            tags: parsed_tags(opt_view(self.tags)),
            source: normal_source(opt_view(self.source)),
        }
    }

    /// The record that the query describes.
    pub fn into_joke(self) -> (r: Joke)
        ensures
            r@ == self.record(),
    {
        Joke {
            id: self.id,
            whos_there: self.who,
            answer_who: self.answer,
            tags: parse_tags(self.tags),
            source: parse_source(self.source),
        }
    }
}

/// The address of the front page for one joke.
pub open spec fn joke_address(id: Seq<char>) -> Seq<char> {
    "/?id="@ + id
}

/// The address of the front page for the joke with this id.
pub fn address_of(id: &str) -> (r: String)
    ensures
        r@ == joke_address(id@),
{
    let mut r = "/?id=".to_owned();
    r.append(id);
    r
}

/// What the front page answers.
#[derive(Debug)]
pub enum IndexOutcome {
    /// Send the browser to this address.
    Redirect(String),
    /// Tell this joke, with status 200.
    Tell(Joke),
    /// Show this error, with status 200.
    Missing(String),
    /// Show this error, with status 500.
    Failure(String),
}

/// An outcome of the front page as plain values.
pub ghost enum IndexOutcomeView {
    Redirect(Seq<char>),
    Tell(JokeView),
    Missing(Seq<char>),
    Failure(Seq<char>),
}

impl View for IndexOutcome {
    type V = IndexOutcomeView;

    open spec fn view(&self) -> IndexOutcomeView {
        match self {
            IndexOutcome::Redirect(s) => IndexOutcomeView::Redirect(s@),
            IndexOutcome::Tell(j) => IndexOutcomeView::Tell(j@),
            IndexOutcome::Missing(s) => IndexOutcomeView::Missing(s@),
            IndexOutcome::Failure(s) => IndexOutcomeView::Failure(s@),
        }
    }
}

/// What the front page owes. Asked without an id it picked a joke at
/// random and sends the browser to it; asked with one it tells that joke. A
/// joke that is not there is reported on the page, any other error as a
/// failure of the server.
pub open spec fn index_spec(asked: bool, looked: Result<JokeView, ErrView>) -> IndexOutcomeView {
    match looked {
        Ok(j) => if asked {
            IndexOutcomeView::Tell(j)
        } else {
            IndexOutcomeView::Redirect(joke_address(j.id))
        },
        Err(ErrView::JokeDoesNotExist(id)) => IndexOutcomeView::Missing("cannot find joke "@ + id),
        Err(e) => IndexOutcomeView::Failure(message_of(e)),
    }
}

/// Decides what the front page answers. `asked` says whether the query
/// named an id; `looked` is what the store returned for that id, or for a
/// random pick where none was named.
pub fn index_outcome(asked: bool, looked: Result<Joke, JokeBaseErr>) -> (r: IndexOutcome)
    ensures
        r@ == index_spec(asked, crate::jokebase::found(looked)),
{
    match looked {
        Ok(joke) => if asked {
            IndexOutcome::Tell(joke)
        } else {
            IndexOutcome::Redirect(address_of(joke.id.as_str()))
        },
        Err(JokeBaseErr::JokeDoesNotExist(id)) => {
            let mut text = "cannot find joke ".to_owned();
            text.append(id.as_str());
            IndexOutcome::Missing(text)
        },
        Err(e) => IndexOutcome::Failure(e.message()),
    }
}

/// What the page that adds a joke answers.
#[derive(Debug)]
pub enum AddOutcome {
    /// Send the browser to this address.
    Redirect(String),
    /// Keep this error for the next page, and send the browser to `/tell`.
    Retry(String),
    /// Answer with status 500 and this text.
    Failure(String),
}

/// An outcome of adding as plain values.
pub ghost enum AddOutcomeView {
    Redirect(Seq<char>),
    Retry(Seq<char>),
    Failure(Seq<char>),
}

impl View for AddOutcome {
    type V = AddOutcomeView;

    open spec fn view(&self) -> AddOutcomeView {
        match self {
            AddOutcome::Redirect(s) => AddOutcomeView::Redirect(s@),
            AddOutcome::Retry(s) => AddOutcomeView::Retry(s@),
            AddOutcome::Failure(s) => AddOutcomeView::Failure(s@),
        }
    }
}

/// What the page that adds a joke owes: the new joke on success, another
/// try where the id is taken, a failure of the server otherwise. A failed
/// write is reported with its bare detail.
pub open spec fn add_spec(id: Seq<char>, added: Result<(), ErrView>) -> AddOutcomeView {
    match added {
        Ok(_) => AddOutcomeView::Redirect(joke_address(id)),
        Err(ErrView::JokeBaseIoError(detail)) => AddOutcomeView::Failure(detail),
        Err(ErrView::JokeExists(held)) => AddOutcomeView::Retry(
            "joke "@ + held + " already exists"@,
        ),
        Err(e) => AddOutcomeView::Failure(message_of(e)),
    }
}

/// Decides what the page that adds a joke answers. `id` is the id of the
/// query, `added` what the store returned.
pub fn add_outcome(id: &str, added: Result<(), JokeBaseErr>) -> (r: AddOutcome)
    ensures
        r@ == add_spec(id@, crate::jokebase::done(added)),
{
    match added {
        Ok(_) => AddOutcome::Redirect(address_of(id)),
        Err(JokeBaseErr::JokeBaseIoError(detail)) => AddOutcome::Failure(detail),
        Err(JokeBaseErr::JokeExists(held)) => {
            let mut text = "joke ".to_owned();
            text.append(held.as_str());
            text.append(" already exists");
            AddOutcome::Retry(text)
        },
        Err(e) => AddOutcome::Failure(e.message()),
    }
}

} // verus!
