//! The joke record: its fields, its normal form, its validity rule and the
//! text it is told with.

use crate::text::{
    contains, copy_opt, copy_strings, dedup, distinct, is_trimmed, join, joined, lemma_trim_fixed,
    lemma_trimmed_is_trimmed, opt_view, str_views, trim, trimmed, views,
};
use vstd::prelude::*;
use vstd::string::*;

verus! {

/// One knock-knock joke. `id` is the key it is stored under. `tags` is a set
/// kept as a list: a record in normal form has no tag twice.
#[derive(Debug)]
pub struct Joke {
    pub id: String,
    pub whos_there: String,
    pub answer_who: String,
    pub tags: Option<Vec<String>>,
    pub source: Option<String>,
}

/// What a `Joke` is, as plain mathematical values.
pub ghost struct JokeView {
    pub id: Seq<char>,
    pub whos_there: Seq<char>,
    pub answer_who: Seq<char>,
    pub tags: Option<Seq<Seq<char>>>,
    pub source: Option<Seq<char>>,
}

impl View for Joke {
    type V = JokeView;

    open spec fn view(&self) -> JokeView {
        JokeView {
            id: self.id@,
            whos_there: self.whos_there@,
            answer_who: self.answer_who@,
            tags: match self.tags {
                Some(t) => Some(views(t@)),
                None => None,
            },
            source: opt_view(self.source),
        }
    }
}

/// The tags of `raw` in normal form: each trimmed, the empty ones dropped,
/// and of equal ones only the first kept.
pub open spec fn normal_tags(raw: Seq<Seq<char>>) -> Seq<Seq<char>>
    decreases raw.len(),
{
    if raw.len() == 0 {
        Seq::<Seq<char>>::empty()
    } else {
        let before = normal_tags(raw.drop_last());
        let t = trimmed(raw.last());
        if t.len() == 0 || before.contains(t) {
            before
        } else {
            before.push(t)
        }
    }
}

/// A tag field in normal form: a list that normalises to nothing is no list.
pub open spec fn normal_tag_field(tags: Option<Seq<Seq<char>>>) -> Option<Seq<Seq<char>>> {
    match tags {
        Some(raw) => if normal_tags(raw).len() == 0 {
            None
        } else {
            Some(normal_tags(raw))
        },
        None => None,
    }
}

/// A source field in normal form: an empty source is no source.
pub open spec fn normal_source(source: Option<Seq<char>>) -> Option<Seq<char>> {
    match source {
        Some(s) => if s.len() == 0 {
            None
        } else {
            Some(s)
        },
        None => None,
    }
}

/// Whether a tag list is in normal form: not empty, no tag empty or with
/// white space at an end, no tag twice.
pub open spec fn tags_are_normal(tags: Seq<Seq<char>>) -> bool {
    &&& tags.len() > 0
    &&& distinct(tags)
    &&& forall|i: int| 0 <= i < tags.len() ==> (#[trigger] tags[i]).len() > 0 && is_trimmed(tags[i])
}

/// Why a record with an empty required field is refused.
pub open spec fn defect_of(j: JokeView) -> Option<Seq<char>> {
    if j.id.len() == 0 {
        Some("empty id"@)
    } else if j.whos_there.len() == 0 {
        Some("empty whos_there"@)
    } else if j.answer_who.len() == 0 {
        Some("empty answer_who"@)
    } else {
        None
    }
}

impl JokeView {
    /// The record in normal form: tags and source normalised, the rest as
    /// it is.
    pub open spec fn normal(self) -> JokeView {
        JokeView {
            tags: normal_tag_field(self.tags),
            source: normal_source(self.source),
            ..self
        }
    }

    /// Whether the record is in normal form.
    pub open spec fn is_normal(self) -> bool {
        &&& self.tags matches Some(t) ==> tags_are_normal(t)
        &&& self.source matches Some(s) ==> s.len() > 0
    }

    /// Whether the record may be stored: its id and both texts are filled in.
    pub open spec fn is_valid(self) -> bool {
        &&& self.id.len() > 0
        &&& self.whos_there.len() > 0
        &&& self.answer_who.len() > 0
    }

    /// The record under another key.
    pub open spec fn with_id(self, id: Seq<char>) -> JokeView {
        JokeView { id, ..self }
    }
}

/// The tags joined for display.
pub open spec fn tags_text(tags: Seq<Seq<char>>) -> Seq<char> {
    joined(tags, ", "@)
}

/// The notes under a joke: its id, then its tags and its source where it
/// has them.
pub open spec fn notes(j: JokeView) -> Seq<Seq<char>> {
    let first = seq!["id: "@ + j.id];
    let second = match j.tags {
        Some(t) => first.push("tags: "@ + tags_text(t)),
        None => first,
    };
    match j.source {
        Some(s) => second.push("source: \""@ + s + "\""@),
        None => second,
    }
}

/// The joke as it is told, followed by its notes in square brackets.
pub open spec fn told(j: JokeView) -> Seq<char> {
    "Knock knock!\n"@ + "Who's there?\n"@ + j.whos_there + ".\n"@ + "\""@ + j.whos_there
        + "\" who?\n"@ + j.answer_who + "\n"@ + "\n"@ + "["@ + joined(notes(j), "; "@) + "]\n"@
}

/// Normal tags are in normal form, unless there are none; and they are the
/// non-empty trimmed tags of `raw`, no more and no less.
pub proof fn lemma_normal_tags(raw: Seq<Seq<char>>)
    ensures
        normal_tags(raw).len() > 0 ==> tags_are_normal(normal_tags(raw)),
        normal_tags(raw).len() <= raw.len(),
        forall|x: Seq<char>|
            normal_tags(raw).contains(x) <==> x.len() > 0 && exists|i: int|
                0 <= i < raw.len() && trimmed(#[trigger] raw[i]) == x,
    decreases raw.len(),
{
    if raw.len() > 0 {
        let head = raw.drop_last();
        lemma_normal_tags(head);
        let before = normal_tags(head);
        let t = trimmed(raw.last());
        let now = normal_tags(raw);
        lemma_trimmed_is_trimmed(raw.last());
        assert forall|x: Seq<char>|
            now.contains(x) <==> x.len() > 0 && exists|i: int|
                0 <= i < raw.len() && trimmed(#[trigger] raw[i]) == x by {
            if now.contains(x) {
                let j = choose|j: int| 0 <= j < now.len() && now[j] == x;
                if j < before.len() {
                    assert(before[j] == x);
                    assert(before.contains(x));
                    let i = choose|i: int| 0 <= i < head.len() && trimmed(#[trigger] head[i]) == x;
                    assert(trimmed(raw[i]) == x);
                } else {
                    assert(trimmed(raw[raw.len() - 1]) == x);
                }
            }
            if x.len() > 0 && exists|i: int| 0 <= i < raw.len() && trimmed(#[trigger] raw[i]) == x {
                let i = choose|i: int| 0 <= i < raw.len() && trimmed(#[trigger] raw[i]) == x;
                if i < raw.len() - 1 {
                    assert(trimmed(head[i]) == x);
                    assert(before.contains(x));
                    let j = choose|j: int| 0 <= j < before.len() && before[j] == x;
                    assert(now[j] == x);
                } else if !before.contains(x) {
                    assert(now[before.len() as int] == x);
                }
            }
        }
        if now.len() > 0 {
            assert forall|i: int| 0 <= i < now.len() implies (#[trigger] now[i]).len() > 0
                && is_trimmed(now[i]) by {
                if i < before.len() {
                    assert(now[i] == before[i]);
                }
            }
            assert forall|i: int, j: int| 0 <= i < j < now.len() implies now[i] != now[j] by {
                if j < before.len() {
                    assert(now[i] == before[i] && now[j] == before[j]);
                } else {
                    assert(now[i] == before[i]);
                    assert(before.contains(before[i]));
                }
            }
        }
    }
}

/// Tags in normal form are what normalising them gives.
pub proof fn lemma_normal_tags_fixed(tags: Seq<Seq<char>>)
    requires
        tags.len() > 0 ==> tags_are_normal(tags),
    ensures
        normal_tags(tags) == tags,
    decreases tags.len(),
{
    if tags.len() > 0 {
        let head = tags.drop_last();
        assert(head.len() > 0 ==> tags_are_normal(head)) by {
            assert forall|i: int| 0 <= i < head.len() implies (#[trigger] head[i]).len() > 0
                && is_trimmed(head[i]) by {
                assert(head[i] == tags[i]);
            }
        }
        lemma_normal_tags_fixed(head);
        let last = tags.last();
        assert(last == tags[tags.len() - 1]);
        lemma_trim_fixed(last);
        if head.contains(last) {
            let i = choose|i: int| 0 <= i < head.len() && head[i] == last;
            assert(tags[i] == tags[tags.len() - 1]);
        }
        assert(head.push(last) == tags);
    }
}

/// The normal form of a record is in normal form, and a record in normal
/// form is its own normal form.
pub proof fn lemma_normal_form(j: JokeView)
    ensures
        j.normal().is_normal(),
        j.normal().normal() == j.normal(),
        j.is_normal() ==> j.normal() == j,
        j.normal().is_valid() == j.is_valid(),
        j.normal().id == j.id,
{
    if let Some(raw) = j.tags {
        lemma_normal_tags(raw);
    }
    if let Some(t) = j.normal().tags {
        lemma_normal_tags_fixed(t);
    }
    if j.is_normal() {
        if let Some(t) = j.tags {
            lemma_normal_tags_fixed(t);
        }
    }
}

impl Clone for Joke {
    fn clone(&self) -> (r: Joke)
        ensures
            r@ == self@,
    {
        Joke {
            id: self.id.clone(),
            whos_there: self.whos_there.clone(),
            answer_who: self.answer_who.clone(),
            tags: match &self.tags {
                Some(t) => Some(copy_strings(t)),
                None => None,
            },
            source: copy_opt(&self.source),
        }
    }
}

impl Joke {
    /// A record from borrowed parts. No tags at all give a record without a
    /// tag field; otherwise the tags are kept as a set, so that one given
    /// twice is held once. Nothing is trimmed here.
    pub fn new(
        id: &str,
        whos_there: &str,
        answer_who: &str,
        tags: &[&str],
        source: Option<&str>,
    ) -> (r: Joke)
        ensures
            r@.id == id@,
            r@.whos_there == whos_there@,
            r@.answer_who == answer_who@,
            r@.tags == if tags@.len() == 0 {
                None
            } else {
                Some(dedup(str_views(tags@)))
            },
            r@.source == match source {
                Some(s) => Some(s@),
                None => None,
            },
    {
        let n: usize = tags.len();
        let held = if n == 0 {
            None
        } else {
            let mut set: Vec<String> = Vec::new();
            let mut i: usize = 0;
            let ghost all = str_views(tags@);
            assert(all.take(0) == Seq::<Seq<char>>::empty());
            while i < n
                invariant
                    n == tags@.len(),
                    i <= n,
                    all == str_views(tags@),
                    views(set@) == dedup(all.take(i as int)),
                decreases n - i,
            {
                proof {
                    let cur = all.take(i as int + 1);
                    assert(cur.drop_last() == all.take(i as int));
                    assert(cur.last() == tags@[i as int]@);
                }
                let ghost before = views(set@);
                if !contains(&set, tags[i]) {
                    set.push(tags[i].to_owned());
                    assert(views(set@) == before.push(tags@[i as int]@));
                }
                i += 1;
            }
            assert(all.take(n as int) == all);
            Some(set)
        };
        Joke {
            id: id.to_owned(),
            whos_there: whos_there.to_owned(),
            answer_who: answer_who.to_owned(),
            tags: held,
            source: match source {
                Some(s) => Some(s.to_owned()),
                None => None,
            },
        }
    }

    /// The record of a row of the relational backend and the tags that were
    /// found under its id. The tags are kept as a set; where none was found
    /// the record has no tag field.
    pub fn from_row(
        id: String,
        whos_there: String,
        answer_who: String,
        source: Option<String>,
        tags: Vec<String>,
    ) -> (r: Joke)
        ensures
            r@.id == id@,
            r@.whos_there == whos_there@,
            r@.answer_who == answer_who@,
            r@.source == opt_view(source),
            r@.tags == if tags@.len() == 0 {
                None
            } else {
                Some(dedup(views(tags@)))
            },
    {
        let n: usize = tags.len();
        let held = if n == 0 {
            None
        } else {
            let mut set: Vec<String> = Vec::new();
            let mut i: usize = 0;
            let ghost all = views(tags@);
            assert(all.take(0) == Seq::<Seq<char>>::empty());
            while i < n
                invariant
                    n == tags@.len(),
                    i <= n,
                    all == views(tags@),
                    views(set@) == dedup(all.take(i as int)),
                decreases n - i,
            {
                proof {
                    let cur = all.take(i as int + 1);
                    assert(cur.drop_last() == all.take(i as int));
                    assert(cur.last() == tags@[i as int]@);
                }
                let ghost before = views(set@);
                if !contains(&set, tags[i].as_str()) {
                    set.push(tags[i].clone());
                    assert(views(set@) == before.push(tags@[i as int]@));
                }
                i += 1;
            }
            assert(all.take(n as int) == all);
            Some(set)
        };
        Joke { id, whos_there, answer_who, tags: held, source }
    }

    /// Whether the record may be stored.
    pub fn is_valid(&self) -> (r: bool)
        ensures
            r == self@.is_valid(),
    {
        !self.id.as_str().is_empty() && !self.whos_there.as_str().is_empty()
            && !self.answer_who.as_str().is_empty()
    }

    /// The first reason for which the record may not be stored, if any.
    pub fn defect(&self) -> (r: Option<String>)
        ensures
            opt_view(r) == defect_of(self@),
            r is None <==> self@.is_valid(),
    {
        if self.id.as_str().is_empty() {
            Some("empty id".to_owned())
        } else if self.whos_there.as_str().is_empty() {
            Some("empty whos_there".to_owned())
        } else if self.answer_who.as_str().is_empty() {
            Some("empty answer_who".to_owned())
        } else {
            None
        }
    }

    /// The record in normal form.
    pub fn normalize(self) -> (r: Joke)
        ensures
            r@ == self@.normal(),
            r@.is_normal(),
    {
        proof {
            lemma_normal_form(self@);
        }
        let tags = match self.tags {
            Some(raw) => normalize_tags(&raw),
            None => None,
        };
        let source = match self.source {
            Some(s) => if s.as_str().is_empty() {
                None
            } else {
                Some(s)
            },
            None => None,
        };
        Joke { id: self.id, whos_there: self.whos_there, answer_who: self.answer_who, tags, source }
    }
}

/// The tags of `raw` in normal form, or nothing where none is left.
pub fn normalize_tags(raw: &Vec<String>) -> (r: Option<Vec<String>>)
    ensures
        match r {
            Some(t) => Some(views(t@)),
            None => None,
        } == normal_tag_field(Some(views(raw@))),
{
    let n: usize = raw.len();
    let mut out: Vec<String> = Vec::new();
    let mut i: usize = 0;
    let ghost all = views(raw@);
    assert(all.take(0) == Seq::<Seq<char>>::empty());
    while i < n
        invariant
            n == raw.len(),
            i <= n,
            all == views(raw@),
            views(out@) == normal_tags(all.take(i as int)),
        decreases n - i,
    {
        proof {
            let cur = all.take(i as int + 1);
            assert(cur.drop_last() == all.take(i as int));
            assert(cur.last() == raw@[i as int]@);
        }
        let ghost before = views(out@);
        let t = trim(raw[i].as_str());
        if !t.as_str().is_empty() && !contains(&out, t.as_str()) {
            out.push(t);
            assert(views(out@) == before.push(trimmed(raw@[i as int]@)));
        }
        i += 1;
    }
    assert(all.take(n as int) == all);
    if out.len() == 0 {
        None
    } else {
        Some(out)
    }
}

/// The tags joined with a comma and a space, in the order they are held.
pub fn format_tags(tags: &Vec<String>) -> (r: String)
    ensures
        r@ == tags_text(views(tags@)),
{
    join(tags, ", ")
}

impl From<&Joke> for String {
    /// The joke as it is told, followed by its notes.
    fn from(joke: &Joke) -> (text: String)
        ensures
            text@ == told(joke@),
    {
        let mut text: String = "Knock knock!\n".to_owned();
        text.append("Who's there?\n");
        text.append(joke.whos_there.as_str());
        text.append(".\n");
        text.append("\"");
        text.append(joke.whos_there.as_str());
        text.append("\" who?\n");
        text.append(joke.answer_who.as_str());
        text.append("\n");
        text.append("\n");

        let mut first: String = "id: ".to_owned();
        first.append(joke.id.as_str());
        let mut annote: Vec<String> = Vec::new();
        annote.push(first);
        assert(views(annote@) == seq!["id: "@ + joke@.id]);
        if let Some(tags) = &joke.tags {
            let ghost before = views(annote@);
            let mut note: String = "tags: ".to_owned();
            note.append(format_tags(tags).as_str());
            annote.push(note);
            assert(views(annote@) == before.push("tags: "@ + tags_text(views(tags@))));
        }
        if let Some(source) = &joke.source {
            let ghost before = views(annote@);
            let mut note: String = "source: \"".to_owned();
            note.append(source.as_str());
            note.append("\"");
            annote.push(note);
            assert(views(annote@) == before.push("source: \""@ + source@ + "\""@));
        }
        assert(views(annote@) == notes(joke@));
        let annote = join(&annote, "; ");
        text.append("[");
        text.append(annote.as_str());
        text.append("]\n");
        text
    }
}

impl vstd::std_specs::convert::FromSpecImpl<&Joke> for String {
    open spec fn obeys_from_spec() -> bool {
        false
    }

    open spec fn from_spec(joke: &Joke) -> String {
        arbitrary()
    }
}

} // verus!
