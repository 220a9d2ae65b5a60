//! The JSON texts that the library writes: a record, an error, and the whole
//! collection as one document.
//!
//! Objects and arrays are framed here; string literals, with their escapes,
//! are written by `serde_json`.

use crate::joke::{Joke, JokeView};
use crate::jokebase::{joke_views, JokeBaseErr};
use crate::model::ErrView;
use crate::text::views;
use vstd::prelude::*;
use vstd::string::*;

verus! {

/// The JSON string literal for `s`, quotes and escapes included, as
/// `serde_json` writes it.
pub uninterp spec fn json_quoted(s: Seq<char>) -> Seq<char>;

/// Trusted: `serde_json::Value::from(&str)` and its `Display`, which writes
/// a string value as a compact JSON string literal. The contract names the
/// literal; it is a function of the characters alone.
#[verifier::external_body]
pub(crate) fn quote(s: &str) -> (r: String)
    ensures
        r@ == json_quoted(s@),
{
    serde_json::Value::from(s).to_string()
}

/// `items`, each followed by a comma but the last.
pub open spec fn comma_separated(items: Seq<Seq<char>>) -> Seq<char>
    decreases items.len(),
{
    if items.len() == 0 {
        Seq::<char>::empty()
    } else if items.len() == 1 {
        items[0]
    } else {
        comma_separated(items.drop_last()) + ","@ + items.last()
    }
}

/// The literals of a sequence of strings.
pub open spec fn quoted_all(items: Seq<Seq<char>>) -> Seq<Seq<char>> {
    Seq::new(items.len(), |i: int| json_quoted(items[i]))
}

/// A JSON array of string literals.
pub open spec fn array_json(items: Seq<Seq<char>>) -> Seq<char> {
    "["@ + comma_separated(quoted_all(items)) + "]"@
}

/// A record as a JSON object: `id`, `whos_there`, `answer_who`, then `tags`
/// and `source` where the record has them.
pub open spec fn joke_json(j: JokeView) -> Seq<char> {
    "{\"id\":"@ + json_quoted(j.id) + ",\"whos_there\":"@ + json_quoted(j.whos_there)
        + ",\"answer_who\":"@ + json_quoted(j.answer_who) + (match j.tags {
        Some(t) => ",\"tags\":"@ + array_json(t),
        None => Seq::<char>::empty(),
    }) + (match j.source {
        Some(s) => ",\"source\":"@ + json_quoted(s),
        None => Seq::<char>::empty(),
    }) + "}"@
}

/// An error as JSON: the name of its kind, with its text where it has one.
pub open spec fn err_json(e: ErrView) -> Seq<char> {
    match e {
        ErrView::JokeExists(s) => "{\"JokeExists\":"@ + json_quoted(s) + "}"@,
        ErrView::JokeBaseIoError(s) => "{\"JokeBaseIoError\":"@ + json_quoted(s) + "}"@,
        ErrView::NoJoke => "\"NoJoke\""@,
        ErrView::JokeDoesNotExist(s) => "{\"JokeDoesNotExist\":"@ + json_quoted(s) + "}"@,
        ErrView::JokeUnprocessable(s) => "{\"JokeUnprocessable\":"@ + json_quoted(s) + "}"@,
        ErrView::DatabaseError(s) => "{\"DatabaseError\":"@ + json_quoted(s) + "}"@,
    }
}

/// The records as JSON objects.
pub open spec fn jokes_json(entries: Seq<JokeView>) -> Seq<Seq<char>> {
    Seq::new(entries.len(), |i: int| joke_json(entries[i]))
}

/// A JSON array of records.
pub open spec fn list_json(entries: Seq<JokeView>) -> Seq<char> {
    "["@ + comma_separated(jokes_json(entries)) + "]"@
}

/// The members of the document: each record under its id.
pub open spec fn members(entries: Seq<JokeView>) -> Seq<Seq<char>> {
    Seq::new(entries.len(), |i: int| json_quoted(entries[i].id) + ":"@ + joke_json(entries[i]))
}

/// The whole collection as one JSON object that maps each id to its record.
pub open spec fn document(entries: Seq<JokeView>) -> Seq<char> {
    "{"@ + comma_separated(members(entries)) + "}"@
}

/// `items` joined with commas.
fn commas(items: &Vec<String>) -> (r: String)
    ensures
        r@ == comma_separated(views(items@)),
{
    let mut r = String::new();
    let n: usize = items.len();
    let mut i: usize = 0;
    let ghost all = views(items@);
    assert(all.take(0) == Seq::<Seq<char>>::empty());
    while i < n
        invariant
            n == items.len(),
            i <= n,
            all == views(items@),
            r@ == comma_separated(all.take(i as int)),
        decreases n - i,
    {
        proof {
            let cur = all.take(i as int + 1);
            assert(cur.drop_last() == all.take(i as int));
            assert(cur.last() == items@[i as int]@);
        }
        if i > 0 {
            r.append(",");
        }
        r.append(items[i].as_str());
        i += 1;
    }
    assert(all.take(n as int) == all);
    r
}

/// A JSON array of the string literals of `items`.
pub fn array_to_json(items: &Vec<String>) -> (r: String)
    ensures
        r@ == array_json(views(items@)),
{
    let n: usize = items.len();
    let mut lits: Vec<String> = Vec::new();
    let mut i: usize = 0;
    while i < n
        invariant
            n == items.len(),
            i <= n,
            lits.len() == i,
            forall|k: int| 0 <= k < i ==> (#[trigger] lits@[k])@ == json_quoted(items@[k]@),
        decreases n - i,
    {
        lits.push(quote(items[i].as_str()));
        i += 1;
    }
    assert(views(lits@) =~= quoted_all(views(items@)));
    let mut r = "[".to_owned();
    r.append(commas(&lits).as_str());
    r.append("]");
    r
}

/// The record as a JSON object.
pub fn joke_to_json(joke: &Joke) -> (r: String)
    ensures
        r@ == joke_json(joke@),
{
    let mut r = "{\"id\":".to_owned();
    r.append(quote(joke.id.as_str()).as_str());
    r.append(",\"whos_there\":");
    r.append(quote(joke.whos_there.as_str()).as_str());
    r.append(",\"answer_who\":");
    r.append(quote(joke.answer_who.as_str()).as_str());
    let ghost head = r@;
    let ghost tags_part = match joke@.tags {
        Some(t) => ",\"tags\":"@ + array_json(t),
        None => Seq::<char>::empty(),
    };
    if let Some(tags) = &joke.tags {
        r.append(",\"tags\":");
        r.append(array_to_json(tags).as_str());
    }
    assert(r@ =~= head + tags_part);
    let ghost source_part = match joke@.source {
        Some(s) => ",\"source\":"@ + json_quoted(s),
        None => Seq::<char>::empty(),
    };
    if let Some(source) = &joke.source {
        r.append(",\"source\":");
        r.append(quote(source.as_str()).as_str());
    }
    assert(r@ =~= head + tags_part + source_part);
    r.append("}");
    r
}

/// One variant with its text, as a JSON object with one member.
fn tagged(name: &str, text: &str) -> (r: String)
    ensures
        r@ == "{"@ + name@ + ":"@ + json_quoted(text@) + "}"@,
{
    let mut r = "{".to_owned();
    r.append(name);
    r.append(":");
    r.append(quote(text).as_str());
    r.append("}");
    r
}

/// The error as JSON.
pub fn err_to_json(e: &JokeBaseErr) -> (r: String)
    ensures
        r@ == err_json(e@),
{
    proof {
        reveal_strlit("{");
        reveal_strlit(":");
        reveal_strlit("\"JokeExists\"");
        reveal_strlit("{\"JokeExists\":");
        reveal_strlit("\"JokeBaseIoError\"");
        reveal_strlit("{\"JokeBaseIoError\":");
        reveal_strlit("\"JokeDoesNotExist\"");
        reveal_strlit("{\"JokeDoesNotExist\":");
        reveal_strlit("\"JokeUnprocessable\"");
        reveal_strlit("{\"JokeUnprocessable\":");
        reveal_strlit("\"DatabaseError\"");
        reveal_strlit("{\"DatabaseError\":");
    }
    match e {
        JokeBaseErr::JokeExists(s) => {
            let r = tagged("\"JokeExists\"", s.as_str());
            assert("{"@ + "\"JokeExists\""@ + ":"@ =~= "{\"JokeExists\":"@);
            r
        },
        JokeBaseErr::JokeBaseIoError(s) => {
            let r = tagged("\"JokeBaseIoError\"", s.as_str());
            assert("{"@ + "\"JokeBaseIoError\""@ + ":"@ =~= "{\"JokeBaseIoError\":"@);
            r
        },
        JokeBaseErr::NoJoke => "\"NoJoke\"".to_owned(),
        JokeBaseErr::JokeDoesNotExist(s) => {
            let r = tagged("\"JokeDoesNotExist\"", s.as_str());
            assert("{"@ + "\"JokeDoesNotExist\""@ + ":"@ =~= "{\"JokeDoesNotExist\":"@);
            r
        },
        JokeBaseErr::JokeUnprocessable(s) => {
            let r = tagged("\"JokeUnprocessable\"", s.as_str());
            assert("{"@ + "\"JokeUnprocessable\""@ + ":"@ =~= "{\"JokeUnprocessable\":"@);
            r
        },
        JokeBaseErr::DatabaseError(s) => {
            let r = tagged("\"DatabaseError\"", s.as_str());
            assert("{"@ + "\"DatabaseError\""@ + ":"@ =~= "{\"DatabaseError\":"@);
            r
        },
    }
}

/// A JSON array of the records.
pub fn list_to_json(jokes: &Vec<Joke>) -> (r: String)
    ensures
        r@ == list_json(joke_views(jokes@)),
{
    let n: usize = jokes.len();
    let mut parts: Vec<String> = Vec::new();
    let mut i: usize = 0;
    while i < n
        invariant
            n == jokes.len(),
            i <= n,
            parts.len() == i,
            forall|k: int| 0 <= k < i ==> (#[trigger] parts@[k])@ == joke_json(jokes@[k]@),
        decreases n - i,
    {
        parts.push(joke_to_json(&jokes[i]));
        i += 1;
    }
    assert(views(parts@) =~= jokes_json(joke_views(jokes@)));
    let mut r = "[".to_owned();
    r.append(commas(&parts).as_str());
    r.append("]");
    r
}

/// The whole collection as one JSON object that maps each id to its record.
pub fn to_document(jokes: &Vec<Joke>) -> (r: String)
    ensures
        r@ == document(joke_views(jokes@)),
{
    let n: usize = jokes.len();
    let mut parts: Vec<String> = Vec::new();
    let mut i: usize = 0;
    while i < n
        invariant
            n == jokes.len(),
            i <= n,
            parts.len() == i,
            forall|k: int|
                0 <= k < i ==> (#[trigger] parts@[k])@ == json_quoted(jokes@[k]@.id) + ":"@
                    + joke_json(jokes@[k]@),
        decreases n - i,
    {
        let mut member = quote(jokes[i].id.as_str());
        member.append(":");
        member.append(joke_to_json(&jokes[i]).as_str());
        parts.push(member);
        i += 1;
    }
    assert(views(parts@) =~= members(joke_views(jokes@)));
    let mut r = "{".to_owned();
    r.append(commas(&parts).as_str());
    r.append("}");
    r
}

} // verus!
