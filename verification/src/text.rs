//! Text helpers shared by the rest of the library.
//!
//! Every string is reasoned about through its view, a `Seq<char>`. The
//! `spec` functions here say what trimming, splitting and joining
//! mean on such sequences; the executable functions compute them on `str`
//! and `String`.

use vstd::prelude::*;
use vstd::string::*;

verus! {

/// Whether `c` counts as white space. This is the answer of
/// `char::is_whitespace`, which follows the Unicode `White_Space` property;
/// the library does not enumerate the code points itself.
pub uninterp spec fn is_whitespace(c: char) -> bool;

/// Trusted: `char::is_whitespace`. The contract names its answer.
#[verifier::external_body]
pub(crate) fn char_is_whitespace(c: char) -> (b: bool)
    ensures
        b == is_whitespace(c),
{
    c.is_whitespace()
}

/// Trusted: `String::push`, which appends one character at the end.
#[verifier::external_body]
pub(crate) fn push_char(s: &mut String, c: char)
    ensures
        final(s)@ == old(s)@.push(c),
{
    s.push(c)
}

/// Trusted: `==` on `str`, which holds exactly when both hold the same
/// characters.
#[verifier::external_body]
pub(crate) fn str_eq(a: &str, b: &str) -> (r: bool)
    ensures
        r == (a@ == b@),
{
    a == b
}

/// `s` without its leading white space.
pub open spec fn trim_start(s: Seq<char>) -> Seq<char>
    decreases s.len(),
{
    if s.len() > 0 && is_whitespace(s[0]) {
        trim_start(s.drop_first())
    } else {
        s
    }
}

/// `s` without its trailing white space.
pub open spec fn trim_end(s: Seq<char>) -> Seq<char>
    decreases s.len(),
{
    if s.len() > 0 && is_whitespace(s.last()) {
        trim_end(s.drop_last())
    } else {
        s
    }
}

/// `s` without leading and trailing white space.
pub open spec fn trimmed(s: Seq<char>) -> Seq<char> {
    trim_end(trim_start(s))
}

/// Whether `s` neither starts nor ends with white space.
pub open spec fn is_trimmed(s: Seq<char>) -> bool {
    s.len() > 0 ==> !is_whitespace(s[0]) && !is_whitespace(s.last())
}

/// The pieces of `s` between occurrences of `sep`. An empty `s` has one
/// empty piece; `n` separators give `n + 1` pieces.
pub open spec fn split_on(s: Seq<char>, sep: char) -> Seq<Seq<char>>
    decreases s.len(),
{
    if s.len() == 0 {
        seq![Seq::<char>::empty()]
    } else {
        let before = split_on(s.drop_last(), sep);
        if s.last() == sep {
            before.push(Seq::<char>::empty())
        } else {
            before.drop_last().push(before.last().push(s.last()))
        }
    }
}

/// The concatenation of `parts`, with `sep` between neighbours.
pub open spec fn joined(parts: Seq<Seq<char>>, sep: Seq<char>) -> Seq<char>
    decreases parts.len(),
{
    if parts.len() == 0 {
        Seq::<char>::empty()
    } else if parts.len() == 1 {
        parts[0]
    } else {
        joined(parts.drop_last(), sep) + sep + parts.last()
    }
}

/// The views of a sequence of strings.
pub open spec fn views(v: Seq<String>) -> Seq<Seq<char>> {
    Seq::new(v.len(), |i: int| v[i]@)
}

/// The views of a sequence of string slices.
pub open spec fn str_views(v: Seq<&str>) -> Seq<Seq<char>> {
    Seq::new(v.len(), |i: int| v[i]@)
}

/// The view of an optional string.
pub open spec fn opt_view(s: Option<String>) -> Option<Seq<char>> {
    match s {
        Some(t) => Some(t@),
        None => None,
    }
}

/// Whether no element of `s` occurs twice.
pub open spec fn distinct(s: Seq<Seq<char>>) -> bool {
    forall|i: int, j: int| 0 <= i < j < s.len() ==> s[i] != s[j]
}

/// `s` with every later repetition of an element removed.
pub open spec fn dedup(s: Seq<Seq<char>>) -> Seq<Seq<char>>
    decreases s.len(),
{
    if s.len() == 0 {
        Seq::<Seq<char>>::empty()
    } else {
        let before = dedup(s.drop_last());
        if before.contains(s.last()) {
            before
        } else {
            before.push(s.last())
        }
    }
}

/// Trimming a trimmed sequence changes nothing.
pub proof fn lemma_trim_fixed(s: Seq<char>)
    requires
        is_trimmed(s),
    ensures
        trimmed(s) == s,
{
}

/// What `trim_start` leaves does not start with white space, and it is a
/// suffix of `s`.
pub proof fn lemma_trim_start_shape(s: Seq<char>)
    ensures
        trim_start(s).len() <= s.len(),
        trim_start(s) == s.skip(s.len() - trim_start(s).len()),
        trim_start(s).len() > 0 ==> !is_whitespace(trim_start(s)[0]),
        forall|i: int| 0 <= i < s.len() - trim_start(s).len() ==> is_whitespace(s[i]),
    decreases s.len(),
{
    if s.len() > 0 && is_whitespace(s[0]) {
        let t = s.drop_first();
        lemma_trim_start_shape(t);
        let k = t.len() - trim_start(t).len();
        assert(t.skip(k) == s.skip(k + 1));
        assert forall|i: int| 0 <= i < s.len() - trim_start(s).len() implies is_whitespace(
            s[i],
        ) by {
            if i > 0 {
                assert(s[i] == t[i - 1]);
            }
        }
    } else {
        assert(s.skip(0) == s);
    }
}

/// What `trim_end` leaves does not end with white space, and it is a
/// prefix of `s`.
pub proof fn lemma_trim_end_shape(s: Seq<char>)
    ensures
        trim_end(s).len() <= s.len(),
        trim_end(s) == s.take(trim_end(s).len() as int),
        trim_end(s).len() > 0 ==> !is_whitespace(trim_end(s).last()),
        forall|i: int| trim_end(s).len() <= i < s.len() ==> is_whitespace(s[i]),
    decreases s.len(),
{
    if s.len() > 0 && is_whitespace(s.last()) {
        let t = s.drop_last();
        lemma_trim_end_shape(t);
        let k = trim_end(t).len() as int;
        assert(t.take(k) == s.take(k));
        assert forall|i: int| trim_end(s).len() <= i < s.len() implies is_whitespace(s[i]) by {
            if i < s.len() - 1 {
                assert(s[i] == t[i]);
            }
        }
    } else {
        assert(s.take(s.len() as int) == s);
    }
}

/// The result of trimming is trimmed: it has no white space at either end.
pub proof fn lemma_trimmed_is_trimmed(s: Seq<char>)
    ensures
        is_trimmed(trimmed(s)),
        trimmed(trimmed(s)) == trimmed(s),
{
    let a = trim_start(s);
    lemma_trim_start_shape(s);
    lemma_trim_end_shape(a);
    let b = trim_end(a);
    if b.len() > 0 {
        assert(b[0] == a[0]);
    }
    lemma_trim_fixed(b);
}

/// The characters of `s`, in order.
pub(crate) fn to_chars(s: &str) -> (v: Vec<char>)
    ensures
        v@ == s@,
{
    let mut v: Vec<char> = Vec::new();
    for c in it: s.chars()
        invariant
            it.seq() == s@,
            v@ == it.seq().take(it.index() as int),
    {
        v.push(c);
    }
    v
}

/// The string made of `v[from..to]`.
pub(crate) fn from_chars(v: &Vec<char>, from: usize, to: usize) -> (s: String)
    requires
        from <= to <= v.len(),
    ensures
        s@ == v@.subrange(from as int, to as int),
{
    let mut s = String::new();
    let mut i: usize = from;
    while i < to
        invariant
            from <= i <= to <= v.len(),
            s@ == v@.subrange(from as int, i as int),
        decreases to - i,
    {
        push_char(&mut s, v[i]);
        i += 1;
    }
    s
}

/// `s` without leading and trailing white space, as a new string.
pub fn trim(s: &str) -> (r: String)
    ensures
        r@ == trimmed(s@),
{
    let v = to_chars(s);
    let n: usize = v.len();
    let mut start: usize = 0;
    assert(v@.skip(0) == v@);
    while start < n && char_is_whitespace(v[start])
        invariant
            n == v.len(),
            start <= n,
            trim_start(v@) == trim_start(v@.skip(start as int)),
        decreases n - start,
    {
        assert(v@.skip(start as int).drop_first() == v@.skip(start as int + 1));
        start += 1;
    }
    assert(trim_start(v@) == v@.skip(start as int)) by {
        let rest = v@.skip(start as int);
        if rest.len() > 0 {
            assert(rest[0] == v@[start as int]);
        }
    }
    let ghost rest = v@.skip(start as int);
    let mut end: usize = n;
    assert(rest.take(n - start) == rest);
    while end > start && char_is_whitespace(v[end - 1])
        invariant
            n == v.len(),
            start <= end <= n,
            rest == v@.skip(start as int),
            trim_end(rest) == trim_end(rest.take(end - start)),
        decreases end - start,
    {
        proof {
            let cur = rest.take(end - start);
            assert(cur.last() == v@[end - 1]);
            assert(cur.drop_last() == rest.take(end - start - 1));
        }
        end -= 1;
    }
    proof {
        let cur = rest.take(end - start);
        if cur.len() > 0 {
            assert(cur.last() == v@[end - 1]);
        }
        assert(trim_end(rest) == cur);
        assert(cur == v@.subrange(start as int, end as int));
    }
    from_chars(&v, start, end)
}

/// The pieces of `s` between occurrences of `sep`.
pub fn split(s: &str, sep: char) -> (parts: Vec<String>)
    ensures
        views(parts@) == split_on(s@, sep),
{
    let v = to_chars(s);
    let n: usize = v.len();
    let mut parts: Vec<String> = Vec::new();
    let mut piece = String::new();
    let mut i: usize = 0;
    assert(v@.take(0) == Seq::<char>::empty());
    assert(views(parts@).push(piece@) == split_on(v@.take(0), sep));
    while i < n
        invariant
            n == v.len(),
            i <= n,
            views(parts@).push(piece@) == split_on(v@.take(i as int), sep),
        decreases n - i,
    {
        let ghost before = split_on(v@.take(i as int), sep);
        let ghost old_parts = views(parts@);
        let ghost old_piece = piece@;
        proof {
            let cur = v@.take(i as int + 1);
            assert(cur.drop_last() == v@.take(i as int));
            assert(cur.last() == v@[i as int]);
            assert(before.drop_last() == old_parts);
            assert(before.last() == old_piece);
        }
        if v[i] == sep {
            parts.push(piece);
            piece = String::new();
            assert(views(parts@) == old_parts.push(old_piece));
        } else {
            push_char(&mut piece, v[i]);
        }
        i += 1;
    }
    assert(v@.take(n as int) == v@);
    parts.push(piece);
    parts
}

/// The strings of `parts` joined with `sep` between neighbours.
pub fn join(parts: &Vec<String>, sep: &str) -> (r: String)
    ensures
        r@ == joined(views(parts@), sep@),
{
    let mut r = String::new();
    let n: usize = parts.len();
    let mut i: usize = 0;
    let ghost all = views(parts@);
    assert(all.take(0) == Seq::<Seq<char>>::empty());
    while i < n
        invariant
            n == parts.len(),
            i <= n,
            all == views(parts@),
            r@ == joined(all.take(i as int), sep@),
        decreases n - i,
    {
        proof {
            let cur = all.take(i as int + 1);
            assert(cur.drop_last() == all.take(i as int));
            assert(cur.last() == parts@[i as int]@);
        }
        if i > 0 {
            r.append(sep);
        }
        r.append(parts[i].as_str());
        i += 1;
    }
    assert(all.take(n as int) == all);
    r
}

/// Whether one of `items` holds the characters of `s`.
pub fn contains(items: &Vec<String>, s: &str) -> (r: bool)
    ensures
        r == views(items@).contains(s@),
{
    let n: usize = items.len();
    let mut i: usize = 0;
    while i < n
        invariant
            n == items.len(),
            i <= n,
            forall|k: int| 0 <= k < i ==> items@[k]@ != s@,
        decreases n - i,
    {
        if str_eq(items[i].as_str(), s) {
            assert(views(items@)[i as int] == s@);
            return true;
        }
        i += 1;
    }
    assert(!views(items@).contains(s@)) by {
        if views(items@).contains(s@) {
            let k = choose|k: int| 0 <= k < views(items@).len() && views(items@)[k] == s@;
            assert(items@[k]@ == s@);
        }
    }
    false
}

/// A copy of `items`, string by string.
pub fn copy_strings(items: &Vec<String>) -> (r: Vec<String>)
    ensures
        views(r@) == views(items@),
{
    let mut r: Vec<String> = Vec::new();
    let n: usize = items.len();
    let mut i: usize = 0;
    while i < n
        invariant
            n == items.len(),
            i <= n,
            r.len() == i,
            forall|k: int| 0 <= k < i ==> r@[k]@ == items@[k]@,
        decreases n - i,
    {
        r.push(items[i].clone());
        i += 1;
    }
    assert(views(r@) =~= views(items@));
    r
}

/// A copy of an optional string.
pub fn copy_opt(s: &Option<String>) -> (r: Option<String>)
    ensures
        opt_view(r) == opt_view(*s),
{
    match s {
        Some(t) => Some(t.clone()),
        None => None,
    }
}

} // verus!
