//! What the library reads from URLs, through the `url` crate, and query-pair helpers.

use vstd::prelude::*;

verus! {

/// A string option seen as an option of character sequences.
pub open spec fn opt_view(o: Option<String>) -> Option<Seq<char>> {
    match o {
        Some(s) => Some(s@),
        None => None,
    }
}

/// Key/value pairs seen as pairs of character sequences.
pub open spec fn pairs_view(s: Seq<(String, String)>) -> Seq<(Seq<char>, Seq<char>)> {
    s.map_values(|p: (String, String)| (p.0@, p.1@))
}

/// The domain of `s` as `url::Url` parses it; `None` when it does not parse or names no domain.
pub uninterp spec fn url_domain_of(s: Seq<char>) -> Option<Seq<char>>;

/// The path of `s` as `url::Url` parses it; `None` when it does not parse.
pub uninterp spec fn url_path_of(s: Seq<char>) -> Option<Seq<char>>;

/// The query of `s` as `url::Url` parses it; the outer `None` when it does not parse.
pub uninterp spec fn url_query_of(s: Seq<char>) -> Option<Option<Seq<char>>>;

/// The pairs `form_urlencoded` decodes from a query string.
pub uninterp spec fn form_pairs_of(q: Seq<char>) -> Seq<(Seq<char>, Seq<char>)>;

/// `url` with its query replaced by the serialisation of `pairs`; `None` when it does not parse.
pub uninterp spec fn url_with_pairs_of(url: Seq<char>, pairs: Seq<(Seq<char>, Seq<char>)>) -> Option<Seq<char>>;

/// Relies on `url::Url::parse` and `Url::domain`.
#[verifier::external_body]
pub(crate) fn url_domain(s: &str) -> (r: Option<String>)
    ensures
        opt_view(r) == url_domain_of(s@),
{
    url::Url::parse(s).ok().and_then(|u| u.domain().map(|d| d.to_string()))
}

/// Relies on `url::Url::parse` and `Url::path`.
#[verifier::external_body]
pub(crate) fn url_path(s: &str) -> (r: Option<String>)
    ensures
        opt_view(r) == url_path_of(s@),
{
    url::Url::parse(s).ok().map(|u| u.path().to_string())
}

/// Relies on `url::Url::parse` and `Url::query`.
#[verifier::external_body]
pub(crate) fn url_query(s: &str) -> (r: Option<Option<String>>)
    ensures
        match r {
            Some(q) => url_query_of(s@) == Some(opt_view(q)),
            None => url_query_of(s@) is None,
        },
{
    url::Url::parse(s).ok().map(|u| u.query().map(|q| q.to_string()))
}

/// Relies on `url::form_urlencoded::parse`: the decoded pairs in order; none for an empty input.
#[verifier::external_body]
pub(crate) fn form_pairs(q: &str) -> (r: Vec<(String, String)>)
    ensures
        pairs_view(r@) == form_pairs_of(q@),
        q@.len() == 0 ==> r@.len() == 0,
{
    url::form_urlencoded::parse(q.as_bytes()).into_owned().collect()
}

/// Relies on `Url::parse` and `Url::query_pairs_mut`: clears the query, appends `pairs` in
/// order, and serialises; it fails only where `Url::parse` fails.
#[verifier::external_body]
pub(crate) fn url_with_pairs(url: &str, pairs: &Vec<(String, String)>) -> (r: Option<String>)
    ensures
        opt_view(r) == url_with_pairs_of(url@, pairs_view(pairs@)),
        r is Some <==> url_query_of(url@) is Some,
{
    let mut u = url::Url::parse(url).ok()?;
    u.query_pairs_mut().clear().extend_pairs(pairs.iter());
    Some(u.to_string())
}

/// The decoded query pairs of a URL (none when it has no query); `None` when it does not parse.
pub open spec fn query_pairs_of(s: Seq<char>) -> Option<Seq<(Seq<char>, Seq<char>)>> {
    match url_query_of(s) {
        Some(Some(q)) => Some(form_pairs_of(q)),
        Some(None) => Some(form_pairs_of(Seq::empty())),
        None => None,
    }
}

/// The value of the first pair named `key`.
pub open spec fn first_value(p: Seq<(Seq<char>, Seq<char>)>, key: Seq<char>) -> Option<Seq<char>>
    decreases p.len(),
{
    if p.len() == 0 {
        None
    } else if p[0].0 == key {
        Some(p[0].1)
    } else {
        first_value(p.skip(1), key)
    }
}

/// The value of the last pair named `key`, as a map built from the pairs would hold.
pub open spec fn last_value(p: Seq<(Seq<char>, Seq<char>)>, key: Seq<char>) -> Option<Seq<char>>
    decreases p.len(),
{
    if p.len() == 0 {
        None
    } else if p.last().0 == key {
        Some(p.last().1)
    } else {
        last_value(p.drop_last(), key)
    }
}

pub proof fn lemma_pairs_view_push(s: Seq<(String, String)>, p: (String, String))
    ensures
        pairs_view(s.push(p)) == pairs_view(s).push((p.0@, p.1@)),
{
    assert(pairs_view(s.push(p)) =~= pairs_view(s).push((p.0@, p.1@)));
}

/// Appends copies of `src`'s pairs to `dst`.
pub fn extend_pairs(dst: &mut Vec<(String, String)>, src: &Vec<(String, String)>)
    ensures
        pairs_view(final(dst)@) == pairs_view(old(dst)@) + pairs_view(src@),
{
    let ghost base = dst@;
    let mut k: usize = 0;
    while k < src.len()
        invariant
            k <= src.len(),
            pairs_view(dst@) == pairs_view(base) + pairs_view(src@.take(k as int)),
        decreases src.len() - k,
    {
        let p = (src[k].0.clone(), src[k].1.clone());
        proof {
            lemma_pairs_view_push(dst@, p);
            lemma_pairs_view_push(src@.take(k as int), src@[k as int]);
            assert(src@.take(k + 1) =~= src@.take(k as int).push(src@[k as int]));
        }
        dst.push(p);
        k = k + 1;
        assert(pairs_view(dst@) =~= pairs_view(base) + pairs_view(src@.take(k as int)));
    }
    assert(src@.take(k as int) =~= src@);
}

/// The decoded query pairs of a URL.
pub fn query_pairs(s: &str) -> (r: Option<Vec<(String, String)>>)
    ensures
        match r {
            Some(v) => query_pairs_of(s@) == Some(pairs_view(v@)),
            None => query_pairs_of(s@) is None,
        },
{
    match url_query(s) {
        Some(Some(q)) => Some(form_pairs(q.as_str())),
        Some(None) => {
            let r = form_pairs("");
            proof { reveal_strlit(""); }
            assert(""@ =~= Seq::<char>::empty());
            Some(r)
        },
        None => None,
    }
}

/// The value of the first pair named `key`.
pub fn first_value_of(p: &Vec<(String, String)>, key: &str) -> (r: Option<String>)
    ensures
        opt_view(r) == first_value(pairs_view(p@), key@),
{
    let key_s = String::from_str(key);
    let mut i: usize = 0;
    assert(pairs_view(p@).skip(0) =~= pairs_view(p@));
    while i < p.len()
        invariant
            i <= p.len(),
            key_s@ == key@,
            first_value(pairs_view(p@), key@) == first_value(pairs_view(p@).skip(i as int), key@),
        decreases p.len() - i,
    {
        assert(pairs_view(p@).skip(i as int)[0] == (p@[i as int].0@, p@[i as int].1@));
        if p[i].0 == key_s {
            return Some(p[i].1.clone());
        }
        assert(pairs_view(p@).skip(i as int).skip(1) =~= pairs_view(p@).skip(i + 1));
        i = i + 1;
    }
    None
}

/// The value of the last pair named `key`.
pub fn last_value_of(p: &Vec<(String, String)>, key: &str) -> (r: Option<String>)
    ensures
        opt_view(r) == last_value(pairs_view(p@), key@),
{
    let key_s = String::from_str(key);
    let mut i: usize = p.len();
    assert(pairs_view(p@).take(i as int) =~= pairs_view(p@));
    while i > 0
        invariant
            i <= p.len(),
            key_s@ == key@,
            last_value(pairs_view(p@), key@) == last_value(pairs_view(p@).take(i as int), key@),
        decreases i,
    {
        let ghost t = pairs_view(p@).take(i as int);
        assert(t.last() == (p@[i - 1].0@, p@[i - 1].1@));
        if p[i - 1].0 == key_s {
            return Some(p[i - 1].1.clone());
        }
        assert(t.drop_last() =~= pairs_view(p@).take(i - 1));
        i = i - 1;
    }
    assert(pairs_view(p@).take(0) =~= Seq::<(Seq<char>, Seq<char>)>::empty());
    None
}

} // verus!
