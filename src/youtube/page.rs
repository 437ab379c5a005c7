//! Scanning watch and playlist pages for the JSON blocks and the player script they embed.
//!
//! A block is framed by counting braces outside JSON strings, so nested objects and braces
//! inside string values do not end it early.

use vstd::prelude::*;
use crate::error::{message, MusicFreeError};
use crate::text::{chars_of, find, find_chars, find_from, lemma_find_from_bounds, occurs_at, matches_at, string_of};

verus! {

/// Where the object opened before position `i` ends, given the brace depth and string state.
pub open spec fn object_end_from(s: Seq<char>, i: int, depth: int, in_str: bool, esc: bool) -> Option<int>
    decreases s.len() - i,
{
    if i < 0 || i >= s.len() {
        None
    } else {
        let c = s[i];
        if in_str {
            if esc {
                object_end_from(s, i + 1, depth, true, false)
            } else if c == '\\' {
                object_end_from(s, i + 1, depth, true, true)
            } else if c == '"' {
                object_end_from(s, i + 1, depth, false, false)
            } else {
                object_end_from(s, i + 1, depth, true, false)
            }
        } else if c == '"' {
            object_end_from(s, i + 1, depth, true, false)
        } else if c == '{' {
            object_end_from(s, i + 1, depth + 1, false, false)
        } else if c == '}' {
            if depth == 1 { Some(i + 1) } else { object_end_from(s, i + 1, depth - 1, false, false) }
        } else {
            object_end_from(s, i + 1, depth, false, false)
        }
    }
}

/// One past the closing brace of the object opening at `start`.
pub open spec fn object_end(s: Seq<char>, start: int) -> Option<int> {
    if 0 <= start < s.len() && s[start] == '{' {
        object_end_from(s, start, 0, false, false)
    } else {
        None
    }
}

proof fn lemma_object_end_from(s: Seq<char>, i: int, depth: int, in_str: bool, esc: bool)
    requires
        0 <= i,
    ensures
        object_end_from(s, i, depth, in_str, esc) matches Some(e) ==> i < e <= s.len(),
    decreases s.len() - i,
{
    if i < s.len() {
        lemma_object_end_from(s, i + 1, depth, true, false);
        lemma_object_end_from(s, i + 1, depth, true, true);
        lemma_object_end_from(s, i + 1, depth, false, false);
        lemma_object_end_from(s, i + 1, depth + 1, false, false);
        lemma_object_end_from(s, i + 1, depth - 1, false, false);
    }
}

pub proof fn lemma_object_end(s: Seq<char>, start: int)
    ensures
        object_end(s, start) matches Some(e) ==> 0 <= start < e <= s.len(),
{
    if 0 <= start < s.len() && s[start] == '{' {
        lemma_object_end_from(s, start, 0, false, false);
    }
}

/// One past the closing brace of the object opening at `start`, if it closes.
pub fn object_end_exec(v: &Vec<char>, start: usize) -> (r: Option<usize>)
    ensures
        match r {
            Some(e) => object_end(v@, start as int) == Some(e as int),
            None => object_end(v@, start as int) is None,
        },
{
    if start >= v.len() || v[start] != '{' {
        return None;
    }
    let mut depth: usize = 0;
    let mut in_str = false;
    let mut esc = false;
    let mut i = start;
    while i < v.len()
        invariant
            start <= i <= v.len(),
            start < v.len(),
            v@[start as int] == '{',
            depth <= i - start,
            i > start ==> depth >= 1,
            i == start ==> (depth == 0 && !in_str && !esc),
            !in_str ==> !esc,
            object_end(v@, start as int) == object_end_from(v@, i as int, depth as int, in_str, esc),
        decreases v.len() - i,
    {
        let c = v[i];
        if in_str {
            if esc {
                esc = false;
            } else if c == '\\' {
                esc = true;
            } else if c == '"' {
                in_str = false;
            }
        } else if c == '"' {
            in_str = true;
        } else if c == '{' {
            depth = depth + 1;
        } else if c == '}' {
            if depth == 1 {
                return Some(i + 1);
            }
            depth = depth - 1;
        }
        i = i + 1;
    }
    None
}

/// The object text right after the first `marker`, and why there is none.
pub enum BlockFailure {
    NoMarker,
    NoEnd,
}

pub open spec fn block_after(s: Seq<char>, marker: Seq<char>) -> Result<Seq<char>, BlockFailure> {
    match find(s, marker) {
        None => Err(BlockFailure::NoMarker),
        Some(k) => match object_end(s, k + marker.len()) {
            Some(e) => Ok(s.subrange(k + marker.len(), e)),
            None => Err(BlockFailure::NoEnd),
        },
    }
}

fn block_after_exec(v: &Vec<char>, marker: &str) -> (r: Result<String, BlockFailure>)
    ensures
        match block_after(v@, marker@) {
            Ok(b) => r matches Ok(s) && s@ == b,
            Err(BlockFailure::NoMarker) => r matches Err(BlockFailure::NoMarker),
            Err(BlockFailure::NoEnd) => r matches Err(BlockFailure::NoEnd),
        },
{
    let m = chars_of(marker);
    let n = v.len();
    match find_chars(v, &m, 0) {
        None => Err(BlockFailure::NoMarker),
        Some(k) => {
            proof { lemma_find_from_bounds(v@, m@, 0); }
            let st = k + m.len();
            match object_end_exec(v, st) {
                Some(e) => {
                    proof { lemma_object_end(v@, st as int); }
                    Ok(string_of(v, st, e))
                },
                None => Err(BlockFailure::NoEnd),
            }
        },
    }
}

/// The page configuration object (`ytcfg.set({...})`).
pub fn ytcfg_json(html: &str) -> (r: Result<String, MusicFreeError>)
    ensures
        match block_after(html@, "ytcfg.set("@) {
            Ok(b) => r matches Ok(s) && s@ == b,
            Err(BlockFailure::NoMarker) => r matches Err(MusicFreeError::ConfigParseError(m)) && m@ == "ytcfg.set not found"@,
            Err(BlockFailure::NoEnd) => r matches Err(MusicFreeError::ConfigParseError(m)) && m@ == "ytcfg end not found"@,
        },
{
    let v = chars_of(html);
    match block_after_exec(&v, "ytcfg.set(") {
        Ok(s) => Ok(s),
        Err(BlockFailure::NoMarker) => Err(MusicFreeError::ConfigParseError(String::from_str("ytcfg.set not found"))),
        Err(BlockFailure::NoEnd) => Err(MusicFreeError::ConfigParseError(String::from_str("ytcfg end not found"))),
    }
}

/// The page data object (`var ytInitialData = {...};`).
pub fn yt_initial_data_json(html: &str) -> (r: Result<String, MusicFreeError>)
    ensures
        match block_after(html@, "var ytInitialData = "@) {
            Ok(b) => r matches Ok(s) && s@ == b,
            Err(BlockFailure::NoMarker) => r matches Err(MusicFreeError::ConfigParseError(m)) && m@ == "ytInitialData not found"@,
            Err(BlockFailure::NoEnd) => r matches Err(MusicFreeError::ConfigParseError(m)) && m@ == "ytInitialData end not found"@,
        },
{
    let v = chars_of(html);
    match block_after_exec(&v, "var ytInitialData = ") {
        Ok(s) => Ok(s),
        Err(BlockFailure::NoMarker) => Err(MusicFreeError::ConfigParseError(String::from_str("ytInitialData not found"))),
        Err(BlockFailure::NoEnd) => Err(MusicFreeError::ConfigParseError(String::from_str("ytInitialData end not found"))),
    }
}

/// Every object that follows an occurrence of `m` at or after `i`, in page order; scanning
/// resumes after each object (or after the marker when its object does not close).
pub open spec fn candidates_from(s: Seq<char>, m: Seq<char>, i: int, fuel: nat) -> Seq<Seq<char>>
    decreases fuel,
{
    if fuel == 0 {
        Seq::empty()
    } else {
        match find_from(s, m, i) {
            None => Seq::empty(),
            Some(k) => {
                let st = k + m.len();
                match object_end(s, st) {
                    Some(e) => seq![s.subrange(st, e)] + candidates_from(s, m, e, (fuel - 1) as nat),
                    None => candidates_from(s, m, st, (fuel - 1) as nat),
                }
            },
        }
    }
}

/// The embedded player answers of a watch page, in page order.
pub open spec fn player_response_candidates_spec(s: Seq<char>) -> Seq<Seq<char>> {
    candidates_from(s, "var ytInitialPlayerResponse = "@, 0, (s.len() + 1) as nat)
}

proof fn lemma_candidates_fuel(s: Seq<char>, m: Seq<char>, i: int, fuel: nat)
    requires
        m.len() > 0,
        0 <= i,
        fuel >= s.len() + 1 - i,
    ensures
        candidates_from(s, m, i, fuel) == candidates_from(s, m, i, (s.len() + 1 - i) as nat) || i > s.len(),
    decreases s.len() + 1 - i,
{
    if i <= s.len() && fuel > 0 {
        lemma_find_from_bounds(s, m, i);
        match find_from(s, m, i) {
            None => {},
            Some(k) => {
                let st = k + m.len();
                lemma_object_end(s, st);
                match object_end(s, st) {
                    Some(e) => {
                        lemma_candidates_fuel(s, m, e, (fuel - 1) as nat);
                        lemma_candidates_fuel(s, m, e, (s.len() - i) as nat);
                    },
                    None => {
                        lemma_candidates_fuel(s, m, st, (fuel - 1) as nat);
                        lemma_candidates_fuel(s, m, st, (s.len() - i) as nat);
                    },
                }
            },
        }
    }
}

/// Lists the player-answer objects embedded in a watch page, in page order, for the caller to
/// try in turn.
pub fn player_response_candidates(html: &str) -> (r: Vec<String>)
    ensures
        crate::text::strings_view(r@) == player_response_candidates_spec(html@),
{
    let v = chars_of(html);
    let m = chars_of("var ytInitialPlayerResponse = ");
    proof { reveal_strlit("var ytInitialPlayerResponse = "); }
    let ghost s = v@;
    let ghost total = candidates_from(s, m@, 0, (s.len() + 1) as nat);
    let mut out: Vec<String> = Vec::new();
    let mut pos: usize = 0;
    let ghost mut fuel: nat = (s.len() + 1) as nat;
    while pos <= v.len()
        invariant
            s == v@,
            v@ == html@,
            total == candidates_from(s, m@, 0, (s.len() + 1) as nat),
            m@ == "var ytInitialPlayerResponse = "@,
            m@.len() > 0,
            pos <= v.len() + 1,
            fuel >= s.len() + 1 - pos,
            crate::text::strings_view(out@) + candidates_from(s, m@, pos as int, fuel) == total,
        decreases v.len() + 1 - pos,
    {
        proof { lemma_find_from_bounds(s, m@, pos as int); }
        assert(fuel > 0);
        match find_chars(&v, &m, pos) {
            None => {
                assert(candidates_from(s, m@, pos as int, fuel) =~= Seq::<Seq<char>>::empty());
                assert(crate::text::strings_view(out@) =~= total);
                return out;
            },
            Some(k) => {
                let st = k + m.len();
                proof { lemma_object_end(s, st as int); }
                match object_end_exec(&v, st) {
                    Some(e) => {
                        let b = string_of(&v, st, e);
                        let ghost prev = out@;
                        out.push(b);
                        assert(crate::text::strings_view(out@) =~= crate::text::strings_view(prev).push(b@));
                        assert(crate::text::strings_view(out@) + candidates_from(s, m@, e as int, (fuel - 1) as nat) =~= total);
                        pos = e;
                    },
                    None => {
                        pos = st;
                    },
                }
                proof { fuel = (fuel - 1) as nat; }
            },
        }
    }
    assert(candidates_from(s, m@, pos as int, fuel) =~= Seq::<Seq<char>>::empty()) by {
        if fuel > 0 {
            assert(find_from(s, m@, pos as int) is None);
        }
    }
    assert(crate::text::strings_view(out@) =~= total);
    out
}

/// The last position at or before `j` where `p` stands in `s`.
pub open spec fn last_from(s: Seq<char>, p: Seq<char>, j: int) -> Option<int>
    decreases j + 1,
{
    if j < 0 {
        None
    } else if occurs_at(s, p, j) {
        Some(j)
    } else {
        last_from(s, p, j - 1)
    }
}

/// The player script URL a watch page links: the `src` of the script tag closing right before
/// the `name="player/base"` attribute.
pub open spec fn player_url_spec(s: Seq<char>) -> Option<Seq<char>> {
    match find(s, "name=\"player/base\""@) {
        None => None,
        Some(mp) => {
            let before = s.subrange(0, mp);
            match last_from(before, "src=\""@, before.len() - 5) {
                None => None,
                Some(sp) => {
                    let rest = before.subrange(sp + 5, before.len() as int);
                    match find(rest, "\""@) {
                        None => None,
                        Some(e) => Some("https://www.youtube.com"@ + rest.subrange(0, e)),
                    }
                },
            }
        },
    }
}

pub fn get_player_url(html: &str) -> (r: Option<String>)
    ensures
        crate::urls::opt_view(r) == player_url_spec(html@),
{
    let v = chars_of(html);
    let marker = chars_of("name=\"player/base\"");
    let src_key = chars_of("src=\"");
    let quote = chars_of("\"");
    proof { reveal_strlit("src=\""); reveal_strlit("\""); }
    let n = v.len();
    let mp = match find_chars(&v, &marker, 0) {
        Some(p) => p,
        None => return None,
    };
    proof { lemma_find_from_bounds(v@, marker@, 0); }
    let ghost before = v@.subrange(0, mp as int);
    let before_v = chars_before(&v, mp);
    assert(find(html@, "name=\"player/base\""@) == Some(mp as int));
    if before_v.len() < 5 {
        assert(last_from(before, "src=\""@, before.len() - 5) is None);
        assert(player_url_spec(html@) is None);
        return None;
    }
    let mut j: usize = before_v.len() - 4;
    let mut found: Option<usize> = None;
    while j > 0 && found.is_none()
        invariant
            before_v@ == before,
            before.len() >= 5,
            j <= before.len() - 4,
            src_key@ == "src=\""@,
            match found {
                None => last_from(before, "src=\""@, before.len() - 5) == last_from(before, "src=\""@, j - 1),
                Some(k) => k + 5 <= before.len() && last_from(before, "src=\""@, before.len() - 5) == Some(k as int),
            },
        decreases j,
    {
        j = j - 1;
        if matches_at(&before_v, &src_key, j) {
            found = Some(j);
        }
    }
    let sp = match found {
        Some(k) => k,
        None => {
            assert(last_from(before, "src=\""@, -1) is None);
            return None;
        },
    };
    let rest = chars_between(&before_v, sp + 5, before_v.len());
    match find_chars(&rest, &quote, 0) {
        None => None,
        Some(e) => {
            proof { lemma_find_from_bounds(rest@, quote@, 0); }
            Some(message("https://www.youtube.com", string_of(&rest, 0, e).as_str()))
        },
    }
}

fn chars_before(v: &Vec<char>, end: usize) -> (r: Vec<char>)
    requires
        end <= v.len(),
    ensures
        r@ == v@.subrange(0, end as int),
{
    chars_between(v, 0, end)
}

fn chars_between(v: &Vec<char>, lo: usize, hi: usize) -> (r: Vec<char>)
    requires
        lo <= hi <= v.len(),
    ensures
        r@ == v@.subrange(lo as int, hi as int),
{
    let mut r: Vec<char> = Vec::new();
    let mut i = lo;
    while i < hi
        invariant
            lo <= i <= hi <= v.len(),
            r@ == v@.subrange(lo as int, i as int),
        decreases hi - i,
    {
        r.push(v[i]);
        i = i + 1;
        assert(r@ =~= v@.subrange(lo as int, i as int));
    }
    r
}

} // verus!
