//! Normalizing user input into a Bilibili video identifier.
//!
//! Normalization is split in two steps around the one network call it may need: the first
//! step either finishes or asks for one redirect lookup of a short link; the second step
//! reads the identifier from the resolved URL and always finishes.

use vstd::prelude::*;
use crate::bilibili::{bvid_in, bvid_in_chars, is_bvid, is_bvid_at};
use crate::error::{message, MusicFreeError};
use crate::text::{
    all_alphanumeric, all_alphanumeric_in, chars_of, is_numeric, matches_at, parse_u64_chars,
    parse_u64_spec, skip_char, split_chars, split_on, starts_with, strings_view,
    trim_start_char, unicode_numeric,
};
use crate::urls::{opt_view, url_domain, url_domain_of, url_path, url_path_of, url_query, url_query_of};

verus! {

/// Declares the error type of `abv::av2bv`.
#[verifier::external_type_specification]
#[verifier::external_body]
pub struct ExAbvError(abv::Error);

/// The identifier `abv::av2bv` derives from a legacy numeric id.
pub uninterp spec fn bvid_of_av(avid: u64) -> Seq<char>;

/// The smallest legacy id `abv::av2bv` accepts.
pub const MIN_AID: u64 = 1;

/// One past the largest legacy id `abv::av2bv` accepts (2^51).
pub const MAX_AID: u64 = 0x8_0000_0000_0000;

/// Relies on `abv::av2bv`: it fails exactly outside `MIN_AID..MAX_AID`, and otherwise yields
/// twelve ASCII letters and digits starting with `BV`.
#[verifier::external_body]
fn av_to_bv(avid: u64) -> (r: Result<String, abv::Error>)
    ensures
        r is Ok <==> (MIN_AID <= avid && avid < MAX_AID),
        r matches Ok(s) ==> s@ == bvid_of_av(avid) && is_bvid(s@),
{
    abv::av2bv(avid)
}

/// What one path segment of a short link says.
pub enum SegmentStep {
    Found(Seq<char>),
    Redirect,
}

/// The outcome of the first normalization step.
pub enum BeginSpec {
    Found(Seq<char>),
    Redirect,
    Invalid,
}

/// A legacy `av<number>` segment, when the number converts.
pub open spec fn av_segment(seg: Seq<char>) -> Option<Seq<char>> {
    if starts_with(seg, "av"@) {
        match parse_u64_spec(seg.skip(2)) {
            Some(n) => if MIN_AID <= n && n < MAX_AID { Some(bvid_of_av(n)) } else { None },
            None => None,
        }
    } else {
        None
    }
}

/// An opaque short-link token: seven alphanumeric characters.
pub open spec fn is_short_token(seg: Seq<char>) -> bool {
    seg.len() == 7 && all_alphanumeric(seg)
}

pub open spec fn segment_step(seg: Seq<char>) -> Option<SegmentStep> {
    if seg.len() == 0 {
        None
    } else if is_bvid(seg) {
        Some(SegmentStep::Found(seg))
    } else if av_segment(seg) is Some {
        Some(SegmentStep::Found(av_segment(seg)->Some_0))
    } else if is_short_token(seg) {
        Some(SegmentStep::Redirect)
    } else {
        None
    }
}

/// The first segment, in order, that says something.
pub open spec fn scan_segments(segs: Seq<Seq<char>>) -> Option<SegmentStep>
    decreases segs.len(),
{
    if segs.len() == 0 {
        None
    } else {
        match segment_step(segs[0]) {
            Some(x) => Some(x),
            None => scan_segments(segs.skip(1)),
        }
    }
}

/// The first step: an identifier given directly, one read from a short link's path or a site
/// URL's path, a request to resolve a short link, or nothing.
pub open spec fn begin_spec(url: Seq<char>) -> BeginSpec {
    if is_bvid(url) {
        BeginSpec::Found(url)
    } else {
        match url_path_of(url) {
            None => BeginSpec::Invalid,
            Some(path) => {
                let short = if url_domain_of(url) == Some("b23.tv"@) {
                    scan_segments(split_on(trim_start_char(path, '/'), '/'))
                } else {
                    None
                };
                match short {
                    Some(SegmentStep::Found(id)) => BeginSpec::Found(id),
                    Some(SegmentStep::Redirect) => BeginSpec::Redirect,
                    None => match bvid_in(path) {
                        Some(id) => BeginSpec::Found(id),
                        None => BeginSpec::Invalid,
                    },
                }
            },
        }
    }
}

/// What the first step asks the caller to do next.
#[derive(Debug)]
pub enum ParseStep {
    /// The identifier was found without any network call.
    Done(String),
    /// Look up where this short link redirects, then call [`finish_parse_id`].
    Resolve(String),
}

fn av_segment_exec(v: &Vec<char>, lo: usize, hi: usize) -> (r: Option<String>)
    requires
        lo <= hi <= v.len(),
    ensures
        opt_view(r) == av_segment(v@.subrange(lo as int, hi as int)),
        r matches Some(s) ==> is_bvid(s@),
{
    let ghost seg = v@.subrange(lo as int, hi as int);
    let av = chars_of("av");
    proof { reveal_strlit("av"); }
    if hi - lo < 2 || v[lo] != 'a' || v[lo + 1] != 'v' {
        assert(!starts_with(seg, "av"@)) by {
            if seg.len() >= 2 {
                assert(seg[0] == v@[lo as int] && seg[1] == v@[lo + 1]);
                assert(seg.subrange(0, 2)[0] == seg[0]);
                assert(seg.subrange(0, 2)[1] == seg[1]);
            }
        }
        return None;
    }
    assert(seg.subrange(0, 2) =~= "av"@);
    assert(seg.skip(2) =~= v@.subrange(lo + 2, hi as int));
    match parse_u64_chars(v, lo + 2, hi) {
        Some(n) => if MIN_AID <= n && n < MAX_AID {
            match av_to_bv(n) {
                Ok(s) => Some(s),
                Err(_) => None,
            }
        } else {
            None
        },
        None => None,
    }
}

/// The first step of normalization; it makes no network call.
pub fn begin_parse_id(url: &str) -> (r: Result<ParseStep, MusicFreeError>)
    ensures
        match begin_spec(url@) {
            BeginSpec::Found(id) => r matches Ok(ParseStep::Done(s)) && s@ == id,
            BeginSpec::Redirect => r matches Ok(ParseStep::Resolve(s)) && s@ == url@,
            BeginSpec::Invalid => r matches Err(MusicFreeError::InvalidUrl(m))
                && m@ == "Cannot extract BV ID from: "@ + url@,
        },
        r matches Ok(ParseStep::Done(s)) ==> is_bvid(s@),
{
    let v = chars_of(url);
    if is_bvid_at(&v, 0) && v.len() == 12 {
        assert(v@.subrange(0, 12) =~= url@);
        return Ok(ParseStep::Done(String::from_str(url)));
    }
    proof {
        if is_bvid(url@) {
            assert(v@.subrange(0, 12) =~= url@);
        }
    }
    let invalid = MusicFreeError::InvalidUrl(message("Cannot extract BV ID from: ", url));
    let path = match url_path(url) {
        Some(p) => p,
        None => return Err(invalid),
    };
    let pv = chars_of(path.as_str());
    let domain = url_domain(url);
    let b23 = String::from_str("b23.tv");
    let is_short_domain = match &domain {
        Some(d) => *d == b23,
        None => false,
    };
    if is_short_domain {
        let start = skip_char(&pv, 0, '/');
        let segs = split_chars(&pv, start, pv.len(), '/');
        assert(pv@.subrange(0, pv@.len() as int) =~= pv@);
        let ghost all = strings_view(segs@);
        assert(all.skip(0) =~= all);
        let mut i: usize = 0;
        while i < segs.len()
            invariant
                i <= segs.len(),
                all == strings_view(segs@),
                all == split_on(trim_start_char(path@, '/'), '/'),
                scan_segments(all) == scan_segments(all.skip(i as int)),
                !is_bvid(url@),
                url_path_of(url@) == Some(path@),
                url_domain_of(url@) == Some("b23.tv"@),
            decreases segs.len() - i,
        {
            let sv = chars_of(segs[i].as_str());
            let ghost seg = all[i as int];
            assert(sv@ == seg);
            assert(all.skip(i as int)[0] == seg);
            assert(sv@.subrange(0, sv@.len() as int) =~= seg);
            if sv.len() > 0 {
                if is_bvid_at(&sv, 0) && sv.len() == 12 {
                    return Ok(ParseStep::Done(segs[i].clone()));
                }
                if let Some(bv) = av_segment_exec(&sv, 0, sv.len()) {
                    return Ok(ParseStep::Done(bv));
                }
                if sv.len() == 7 && all_alphanumeric_in(&sv, 0, 7) {
                    return Ok(ParseStep::Resolve(String::from_str(url)));
                }
            }
            assert(all.skip(i as int).skip(1) =~= all.skip(i + 1));
            i = i + 1;
        }
    }
    match bvid_in_chars(&pv) {
        Some(id) => Ok(ParseStep::Done(id)),
        None => Err(invalid),
    }
}

/// Why the second step could not find an identifier.
pub enum FinishFailure {
    BadUrl,
    NoId,
}

/// The `bvid=` parameter of a query, split as the raw text reads it.
pub open spec fn bvid_param_from(parts: Seq<Seq<char>>) -> Option<Seq<char>>
    decreases parts.len(),
{
    if parts.len() == 0 {
        None
    } else if starts_with(parts[0], "bvid="@) {
        let pieces = split_on(parts[0], '=');
        if pieces.len() > 1 { Some(pieces[1]) } else { None }
    } else {
        bvid_param_from(parts.skip(1))
    }
}

/// The second step: the identifier in the resolved URL's path, else its `bvid` parameter.
pub open spec fn finish_spec(resolved: Seq<char>) -> Result<Seq<char>, FinishFailure> {
    match url_path_of(resolved) {
        None => Err(FinishFailure::BadUrl),
        Some(path) => match bvid_in(path) {
            Some(id) => Ok(id),
            None => {
                let from_query = match url_query_of(resolved) {
                    Some(Some(q)) => bvid_param_from(split_on(q, '&')),
                    _ => None,
                };
                match from_query {
                    Some(id) => if is_bvid(id) { Ok(id) } else { Err(FinishFailure::NoId) },
                    None => Err(FinishFailure::NoId),
                }
            },
        },
    }
}

/// The second step of normalization, on the URL the short link `input` redirected to. It
/// never asks for another lookup; its errors echo the caller's input.
pub fn finish_parse_id(input: &str, resolved: &str) -> (r: Result<String, MusicFreeError>)
    ensures
        match finish_spec(resolved@) {
            Ok(id) => r matches Ok(s) && s@ == id,
            Err(FinishFailure::BadUrl) => r matches Err(MusicFreeError::InvalidUrl(m))
                && m@ == "Failed to parse the resolved URL of: "@ + input@,
            Err(FinishFailure::NoId) => r matches Err(MusicFreeError::InvalidUrl(m))
                && m@ == "Cannot extract BV ID from: "@ + input@,
        },
        r matches Ok(s) ==> is_bvid(s@),
{
    let path = match url_path(resolved) {
        Some(p) => p,
        None => return Err(MusicFreeError::InvalidUrl(message("Failed to parse the resolved URL of: ", input))),
    };
    let pv = chars_of(path.as_str());
    if let Some(id) = bvid_in_chars(&pv) {
        return Ok(id);
    }
    let no_id = MusicFreeError::InvalidUrl(message("Cannot extract BV ID from: ", input));
    let q = match url_query(resolved) {
        Some(Some(q)) => q,
        _ => return Err(no_id),
    };
    let qv = chars_of(q.as_str());
    let parts = split_chars(&qv, 0, qv.len(), '&');
    assert(qv@.subrange(0, qv@.len() as int) =~= qv@);
    assert(bvid_in(path@) is None);
    let ghost all = strings_view(parts@);
    assert(all.skip(0) =~= all);
    let prefix = chars_of("bvid=");
    proof { reveal_strlit("bvid="); }
    let mut i: usize = 0;
    while i < parts.len()
        invariant
            i <= parts.len(),
            all == strings_view(parts@),
            prefix@ == "bvid="@,
            bvid_param_from(all) == bvid_param_from(all.skip(i as int)),
            all == split_on(q@, '&'),
            url_path_of(resolved@) == Some(path@),
            bvid_in(path@) is None,
            url_query_of(resolved@) == Some(Some(q@)),
            no_id matches MusicFreeError::InvalidUrl(m) && m@ == "Cannot extract BV ID from: "@ + input@,
        decreases parts.len() - i,
    {
        proof { reveal_strlit("bvid="); }
        let pv2 = chars_of(parts[i].as_str());
        assert(all.skip(i as int)[0] == pv2@);
        if matches_at(&pv2, &prefix, 0) {
            assert(pv2@.subrange(0, 5) == "bvid="@);
            let pieces = split_chars(&pv2, 0, pv2.len(), '=');
            assert(pv2@.subrange(0, pv2@.len() as int) =~= pv2@);
            if pieces.len() > 1 {
                let cand = chars_of(pieces[1].as_str());
                if is_bvid_at(&cand, 0) && cand.len() == 12 {
                    assert(cand@.subrange(0, 12) =~= cand@);
                    return Ok(pieces[1].clone());
                }
                proof {
                    if is_bvid(cand@) {
                        assert(cand@.subrange(0, 12) =~= cand@);
                    }
                }
            }
            return Err(no_id);
        }
        assert(all.skip(i as int).skip(1) =~= all.skip(i + 1));
        i = i + 1;
    }
    Err(no_id)
}

/// An identifier given directly needs no network call: the first step returns it unchanged.
pub proof fn lemma_direct_id_is_immediate(url: Seq<char>)
    requires
        is_bvid(url),
    ensures
        begin_spec(url) == BeginSpec::Found(url),
{
}

/// The number of redirect lookups normalization makes for an input: one when the first step
/// asks for it, none otherwise. The second step has no lookup outcome, so this is all of them.
pub open spec fn redirect_lookups(url: Seq<char>) -> nat {
    if begin_spec(url) is Redirect { 1 } else { 0 }
}

proof fn lemma_scan_reaches_token(segs: Seq<Seq<char>>, k: int)
    requires
        0 <= k < segs.len(),
        forall|j: int| 0 <= j < k ==> (#[trigger] segs[j]).len() == 0,
        segs[k].len() > 0,
        !is_bvid(segs[k]),
        av_segment(segs[k]) is None,
        is_short_token(segs[k]),
    ensures
        scan_segments(segs) == Some(SegmentStep::Redirect),
    decreases k,
{
    if k > 0 {
        assert(segs[0].len() == 0);
        let rest = segs.skip(1);
        assert forall|j: int| 0 <= j < k - 1 implies (#[trigger] rest[j]).len() == 0 by {
            assert(rest[j] == segs[j + 1]);
        }
        assert(rest[k - 1] == segs[k]);
        lemma_scan_reaches_token(rest, k - 1);
    }
}

/// The input is a short link (not itself an identifier) whose path segments before `k` are
/// empty and whose segment `k` is an opaque token.
pub open spec fn opaque_token_at(url: Seq<char>, k: int) -> bool {
    &&& !is_bvid(url)
    &&& url_domain_of(url) == Some("b23.tv"@)
    &&& url_path_of(url) is Some
    &&& {
        let segs = split_on(trim_start_char(url_path_of(url)->Some_0, '/'), '/');
        &&& 0 <= k < segs.len()
        &&& forall|j: int| 0 <= j < k ==> (#[trigger] segs[j]).len() == 0
        &&& segs[k].len() > 0
        &&& !is_bvid(segs[k])
        &&& av_segment(segs[k]) is None
        &&& is_short_token(segs[k])
    }
}

/// A short link whose first non-empty path segment is an opaque token costs exactly one
/// redirect lookup, and whatever URL it resolves to, the step after it finishes: with an
/// identifier of the right shape or an error, never another lookup. Every input costs at
/// most one lookup, and only a short link on the short-link domain costs any.
pub proof fn lemma_short_link_single_hop(url: Seq<char>, resolved: Seq<char>, k: int)
    ensures
        redirect_lookups(url) <= 1,
        redirect_lookups(url) == 1 ==> url_domain_of(url) == Some("b23.tv"@) && !is_bvid(url),
        opaque_token_at(url, k) ==> redirect_lookups(url) == 1,
        finish_spec(resolved) matches Ok(id) ==> is_bvid(id),
{
    if opaque_token_at(url, k) {
        let segs = split_on(trim_start_char(url_path_of(url)->Some_0, '/'), '/');
        lemma_scan_reaches_token(segs, k);
        assert(begin_spec(url) is Redirect);
    }
}

/// Whether the input is a bare identifier or a URL on one of the site's domains.
pub open spec fn is_bilibili_url_spec(url: Seq<char>) -> bool {
    is_bvid(url) || match url_domain_of(url) {
        Some(d) => d == "bilibili.com"@ || d == "www.bilibili.com"@ || d == "b23.tv"@ || d == "m.bilibili.com"@,
        None => false,
    }
}

pub fn is_bilibili_url(url: &str) -> (r: bool)
    ensures
        r == is_bilibili_url_spec(url@),
{
    let v = chars_of(url);
    if is_bvid_at(&v, 0) && v.len() == 12 {
        assert(v@.subrange(0, 12) =~= url@);
        return true;
    }
    proof {
        if is_bvid(url@) {
            assert(v@.subrange(0, 12) =~= url@);
        }
    }
    match url_domain(url) {
        Some(d) => {
            d == String::from_str("bilibili.com") || d == String::from_str("www.bilibili.com")
                || d == String::from_str("b23.tv") || d == String::from_str("m.bilibili.com")
        },
        None => false,
    }
}

/// Every character satisfies `unicode_numeric`.
pub open spec fn all_numeric(s: Seq<char>) -> bool {
    forall|i: int| 0 <= i < s.len() ==> unicode_numeric(#[trigger] s[i])
}

/// A short-link URL: a seven-character token, `av` and a number, or an identifier-like path.
pub open spec fn is_short_url_spec(url: Seq<char>) -> bool {
    url_domain_of(url) == Some("b23.tv"@) && match url_path_of(url) {
        Some(path) => {
            let p = trim_start_char(path, '/');
            is_short_token(p) || (starts_with(p, "av"@) && all_numeric(p.skip(2)))
                || (starts_with(p, "BV"@) && p.len() >= 12)
        },
        None => false,
    }
}

pub fn is_bilibili_short_url(url: &str) -> (r: bool)
    ensures
        r == is_short_url_spec(url@),
{
    let b23 = String::from_str("b23.tv");
    let on_domain = match url_domain(url) {
        Some(d) => d == b23,
        None => false,
    };
    if !on_domain {
        return false;
    }
    let path = match url_path(url) {
        Some(p) => p,
        None => return false,
    };
    let v = chars_of(path.as_str());
    let s = skip_char(&v, 0, '/');
    let ghost p = v@.subrange(s as int, v@.len() as int);
    assert(v@.subrange(0, v@.len() as int) =~= v@);
    let n = v.len() - s;
    if n == 7 && all_alphanumeric_in(&v, s, v.len()) {
        return true;
    }
    let av = chars_of("av");
    let bv = chars_of("BV");
    proof { reveal_strlit("av"); reveal_strlit("BV"); }
    if matches_at(&v, &av, s) {
        assert(p.subrange(0, 2) =~= v@.subrange(s as int, s + 2));
        let mut i = s + 2;
        let mut all = true;
        while i < v.len()
            invariant
                s + 2 <= i <= v.len(),
                all ==> forall|k: int| s + 2 <= k < i ==> unicode_numeric(#[trigger] v@[k]),
                !all ==> !all_numeric(p.skip(2)),
                p == v@.subrange(s as int, v@.len() as int),
            decreases v.len() - i,
        {
            if !is_numeric(v[i]) {
                assert(p.skip(2)[i - s - 2] == v@[i as int]);
                all = false;
            }
            i = i + 1;
        }
        if all {
            assert forall|k: int| 0 <= k < p.skip(2).len() implies unicode_numeric(#[trigger] p.skip(2)[k]) by {
                assert(p.skip(2)[k] == v@[s + 2 + k]);
            }
            return true;
        }
    } else {
        assert(!starts_with(p, "av"@)) by {
            if starts_with(p, "av"@) {
                assert(p.subrange(0, 2) =~= v@.subrange(s as int, s + 2));
            }
        }
    }
    if matches_at(&v, &bv, s) && n >= 12 {
        assert(p.subrange(0, 2) =~= v@.subrange(s as int, s + 2));
        return true;
    }
    proof {
        if starts_with(p, "BV"@) {
            assert(p.subrange(0, 2) =~= v@.subrange(s as int, s + 2));
        }
    }
    false
}

} // verus!
