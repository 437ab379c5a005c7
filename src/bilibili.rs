//! Bilibili: identifiers, page flattening and stream selection.

pub mod extract;
pub mod types;
pub mod utils;

use vstd::prelude::*;
use crate::error::{message, MusicFreeError};
use crate::model::Platform;
use crate::text::{chars_of, find, find_chars, is_ascii_alnum, matches_at, starts_with, string_of};

verus! {

/// A downloaded Bilibili track.
pub struct AudioInfo {
    pub title: String,
    pub data: Vec<u8>,
}

/// The shape of a video identifier: `BV` followed by ten more ASCII letters or digits.
pub open spec fn is_bvid(s: Seq<char>) -> bool {
    &&& s.len() == 12
    &&& s[0] == 'B'
    &&& s[1] == 'V'
    &&& forall|i: int| 0 <= i < 12 ==> is_ascii_alnum(#[trigger] s[i])
}

/// The identifier starting at the first `BV` in `s`, when twelve characters there have its shape.
pub open spec fn bvid_in(s: Seq<char>) -> Option<Seq<char>> {
    match find(s, "BV"@) {
        Some(i) => if i + 12 <= s.len() && is_bvid(s.subrange(i, i + 12)) {
            Some(s.subrange(i, i + 12))
        } else {
            None
        },
        None => None,
    }
}

/// Whether `v[lo..lo+12]` has the identifier shape.
pub fn is_bvid_at(v: &Vec<char>, lo: usize) -> (r: bool)
    ensures
        r == (lo + 12 <= v@.len() && is_bvid(v@.subrange(lo as int, lo + 12))),
{
    if lo > v.len() || v.len() - lo < 12 {
        return false;
    }
    if v[lo] != 'B' || v[lo + 1] != 'V' {
        return false;
    }
    let end = lo + 12;
    let mut i: usize = 0;
    while i < 12
        invariant
            i <= 12,
            end == lo + 12,
            end <= v@.len(),
            forall|k: int| 0 <= k < i ==> is_ascii_alnum(#[trigger] v@[lo + k]),
        decreases 12 - i,
    {
        let c = v[lo + i];
        if !(('a' <= c && c <= 'z') || ('A' <= c && c <= 'Z') || ('0' <= c && c <= '9')) {
            assert(v@.subrange(lo as int, lo + 12)[i as int] == c);
            return false;
        }
        i = i + 1;
    }
    assert forall|k: int| 0 <= k < 12 implies is_ascii_alnum(#[trigger] v@.subrange(lo as int, lo + 12)[k]) by {
        assert(v@.subrange(lo as int, lo + 12)[k] == v@[lo + k]);
    }
    true
}

/// The identifier at the first `BV` in `v`, if it has the shape.
pub fn bvid_in_chars(v: &Vec<char>) -> (r: Option<String>)
    ensures
        crate::urls::opt_view(r) == bvid_in(v@),
{
    let n = v.len();
    let bv = chars_of("BV");
    match find_chars(v, &bv, 0) {
        Some(i) => if is_bvid_at(v, i) {
            Some(string_of(v, i, i + 12))
        } else {
            None
        },
        None => None,
    }
}

/// Finds a video identifier in a URL or bare identifier.
pub fn extract_bvid(url: &str) -> (r: Result<String, MusicFreeError>)
    ensures
        match bvid_in(url@) {
            Some(id) => r matches Ok(s) && s@ == id,
            None => r matches Err(MusicFreeError::InvalidUrl(m)) && m@ == "Cannot extract BV ID from: "@ + url@,
        },
{
    let v = chars_of(url);
    match bvid_in_chars(&v) {
        Some(id) => Ok(id),
        None => Err(MusicFreeError::InvalidUrl(message("Cannot extract BV ID from: ", url))),
    }
}

/// A loose check: the text names the site or starts like an identifier.
pub open spec fn is_bilibili_url_spec(url: Seq<char>) -> bool {
    find(url, "bilibili.com"@) is Some || starts_with(url, "BV"@)
}

pub fn is_bilibili_url(url: &str) -> (r: bool)
    ensures
        r == is_bilibili_url_spec(url@),
{
    let v = chars_of(url);
    let site = chars_of("bilibili.com");
    let bv = chars_of("BV");
    find_chars(&v, &site, 0).is_some() || matches_at(&v, &bv, 0)
}

/// The Bilibili entry of the extractor registry.
#[derive(Debug, Clone, Copy)]
pub struct BilibiliExtractor;

impl BilibiliExtractor {
    /// Whether this extractor recognizes the input.
    pub fn matches(&self, url: &str) -> (r: bool)
        ensures
            r == crate::bilibili::utils::is_bilibili_url_spec(url@),
    {
        crate::bilibili::utils::is_bilibili_url(url)
    }

    pub fn platform(&self) -> (r: Platform)
        ensures
            r == Platform::Bilibili,
    {
        Platform::Bilibili
    }
}

} // verus!
