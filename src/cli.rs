//! Helpers behind the command line: item selection, display text and file names.

use vstd::prelude::*;
use crate::error::message;
use crate::model::{extension_of, format_name, Audio, AudioFormat};
use crate::text::{chars_of, decimal, find, find_chars, parse_usize_spec, split_chars, split_on, strings_view};

verus! {

/// `m:ss` for a duration in seconds.
pub open spec fn duration_text(seconds: u64) -> Seq<char> {
    let m = seconds / 60;
    let s = seconds % 60;
    decimal(m as nat) + ":"@ + (if s < 10 { "0"@ + decimal(s as nat) } else { decimal(s as nat) })
}

pub fn format_duration(seconds: u64) -> (r: String)
    ensures
        r@ == duration_text(seconds),
{
    let minutes = seconds / 60;
    let secs = seconds % 60;
    let mut r = crate::text::decimal_string(minutes).concat(":");
    if secs < 10 {
        r = r.concat("0");
    }
    crate::text::push_decimal(&mut r, secs);
    r
}

/// The name shown for a track's declared format.
pub fn format_display_format(format: &Option<AudioFormat>) -> (r: String)
    ensures
        r@ == match format {
            Some(f) => format_name(*f),
            None => "Unknown"@,
        },
{
    match format {
        Some(f) => String::from_str(f.name()),
        None => String::from_str("Unknown"),
    }
}

/// The lowercase form of a string, as `str::to_lowercase` gives it.
pub uninterp spec fn lower_of(s: Seq<char>) -> Seq<char>;

/// Relies on `str::to_lowercase`: the result depends on the characters alone.
#[verifier::external_body]
fn lowercase(s: &str) -> (r: String)
    ensures
        r@ == lower_of(s@),
{
    s.to_lowercase()
}

/// The download format a name selects, ignoring case; the containers a user may ask for.
pub open spec fn format_for_name(lower: Seq<char>) -> Option<AudioFormat> {
    if lower == "mp3"@ {
        Some(AudioFormat::Mp3)
    } else if lower == "m4a"@ {
        Some(AudioFormat::M4A)
    } else if lower == "flac"@ {
        Some(AudioFormat::Flac)
    } else if lower == "wav"@ {
        Some(AudioFormat::Wav)
    } else if lower == "aac"@ {
        Some(AudioFormat::AAC)
    } else if lower == "ogg"@ {
        Some(AudioFormat::Ogg)
    } else {
        None
    }
}

pub fn parse_format(format_str: &str) -> (r: Option<AudioFormat>)
    ensures
        r == format_for_name(lower_of(format_str@)),
{
    let l = lowercase(format_str);
    if l == String::from_str("mp3") {
        Some(AudioFormat::Mp3)
    } else if l == String::from_str("m4a") {
        Some(AudioFormat::M4A)
    } else if l == String::from_str("flac") {
        Some(AudioFormat::Flac)
    } else if l == String::from_str("wav") {
        Some(AudioFormat::Wav)
    } else if l == String::from_str("aac") {
        Some(AudioFormat::AAC)
    } else if l == String::from_str("ogg") {
        Some(AudioFormat::Ogg)
    } else {
        None
    }
}

/// The stem `std::path::Path::file_stem` reads from a path, when it is valid text.
pub uninterp spec fn file_stem_of(s: Seq<char>) -> Option<Seq<char>>;

/// Relies on `Path::file_stem`: the file name without its last extension.
#[verifier::external_body]
fn file_stem(s: &str) -> (r: Option<String>)
    ensures
        crate::urls::opt_view(r) == file_stem_of(s@),
{
    std::path::Path::new(s).file_stem().and_then(|x| x.to_str()).map(|x| x.to_string())
}

/// The file name `sanitize_filename::sanitize` makes of a title.
pub uninterp spec fn safe_name_of(s: Seq<char>) -> Seq<char>;

/// Relies on `sanitize_filename::sanitize`: a name the file system accepts.
#[verifier::external_body]
fn safe_name(s: &str) -> (r: String)
    ensures
        r@ == safe_name_of(s@),
{
    sanitize_filename::sanitize(s)
}

/// The extension a track is saved under: its declared format's, MP3 when undeclared.
pub open spec fn track_extension(a: Audio) -> Seq<char> {
    extension_of(match a.format { Some(f) => f, None => AudioFormat::Mp3 })
}

/// The audio file name: the stem of the name asked for, else the sanitized title, with the
/// track's extension.
pub open spec fn filename_spec(a: Audio, output_name: Option<String>) -> Seq<char> {
    match output_name {
        Some(name) => (match file_stem_of(name@) {
            Some(stem) => stem,
            None => "audio"@,
        }) + track_extension(a),
        None => safe_name_of(a.title@) + track_extension(a),
    }
}

pub fn get_filename(audio: &Audio, output_name: &Option<String>) -> (r: String)
    ensures
        r@ == filename_spec(*audio, *output_name),
{
    let fmt = match audio.format {
        Some(f) => f,
        None => AudioFormat::Mp3,
    };
    match output_name {
        Some(name) => {
            let stem = match file_stem(name.as_str()) {
                Some(s) => s,
                None => String::from_str("audio"),
            };
            stem.concat(fmt.extension())
        },
        None => safe_name(audio.title.as_str()).concat(fmt.extension()),
    }
}

/// The cover file name: the stem of the name asked for, else the sanitized title joined to the
/// track id, with a `.jpg` extension.
pub open spec fn cover_filename_spec(a: Audio, output_name: Option<String>) -> Seq<char> {
    match output_name {
        Some(name) => (match file_stem_of(name@) {
            Some(stem) => stem,
            None => "cover"@,
        }) + ".jpg"@,
        None => safe_name_of(a.title@) + "_"@ + a.id@ + ".jpg"@,
    }
}

pub fn get_cover_filename(audio: &Audio, output_name: &Option<String>) -> (r: String)
    ensures
        r@ == cover_filename_spec(*audio, *output_name),
{
    match output_name {
        Some(name) => {
            let stem = match file_stem(name.as_str()) {
                Some(s) => s,
                None => String::from_str("cover"),
            };
            stem.concat(".jpg")
        },
        None => safe_name(audio.title.as_str()).concat("_").concat(audio.id.as_str()).concat(".jpg"),
    }
}

/// Whether a character is white space in Unicode's sense, as `char::is_whitespace` reports.
pub uninterp spec fn unicode_whitespace(c: char) -> bool;

/// Relies on `char::is_whitespace`; in the ASCII range it holds of space and `\t`..`\r`.
#[verifier::external_body]
fn is_whitespace(c: char) -> (r: bool)
    ensures
        r == unicode_whitespace(c),
        (c as u32) < 128 ==> (r == (c == ' ' || (9 <= (c as u32) && (c as u32) <= 13))),
{
    c.is_whitespace()
}

pub open spec fn trim_start_ws(s: Seq<char>) -> Seq<char>
    decreases s.len(),
{
    if s.len() > 0 && unicode_whitespace(s[0]) { trim_start_ws(s.skip(1)) } else { s }
}

pub open spec fn trim_end_ws(s: Seq<char>) -> Seq<char>
    decreases s.len(),
{
    if s.len() > 0 && unicode_whitespace(s.last()) { trim_end_ws(s.drop_last()) } else { s }
}

/// `s` without leading and trailing white space, as `str::trim` gives it.
pub open spec fn trim_ws(s: Seq<char>) -> Seq<char> {
    trim_end_ws(trim_start_ws(s))
}

/// `v[lo..hi]` trimmed, as the bounds of what remains.
fn trim_range(v: &Vec<char>, lo: usize, hi: usize) -> (r: (usize, usize))
    requires
        lo <= hi <= v.len(),
    ensures
        lo <= r.0 <= r.1 <= hi,
        v@.subrange(r.0 as int, r.1 as int) == trim_ws(v@.subrange(lo as int, hi as int)),
{
    let mut a = lo;
    while a < hi && is_whitespace(v[a])
        invariant
            lo <= a <= hi <= v.len(),
            trim_start_ws(v@.subrange(lo as int, hi as int)) == trim_start_ws(v@.subrange(a as int, hi as int)),
        decreases hi - a,
    {
        assert(v@.subrange(a as int, hi as int).skip(1) =~= v@.subrange(a + 1, hi as int));
        a = a + 1;
    }
    proof {
        let t = v@.subrange(a as int, hi as int);
        if t.len() > 0 {
            assert(t[0] == v@[a as int]);
        }
    }
    let mut b = hi;
    while b > a && is_whitespace(v[b - 1])
        invariant
            lo <= a <= b <= hi <= v.len(),
            trim_end_ws(v@.subrange(a as int, hi as int)) == trim_end_ws(v@.subrange(a as int, b as int)),
        decreases b,
    {
        assert(v@.subrange(a as int, b as int).drop_last() =~= v@.subrange(a as int, b - 1));
        b = b - 1;
    }
    proof {
        let t = v@.subrange(a as int, b as int);
        if t.len() > 0 {
            assert(t.last() == v@[b - 1]);
        }
    }
    (a, b)
}

/// The indices one item of a selection names, or the message rejecting it.
pub open spec fn part_items(part: Seq<char>) -> Result<Set<usize>, Seq<char>> {
    if find(part, "-"@) is Some {
        let rp = split_on(part, '-');
        if rp.len() != 2 {
            Err("Invalid range format: "@ + part)
        } else {
            match parse_usize_spec(trim_ws(rp[0])) {
                None => Err("Invalid number in range: "@ + rp[0]),
                Some(a) => match parse_usize_spec(trim_ws(rp[1])) {
                    None => Err("Invalid number in range: "@ + rp[1]),
                    Some(b) => if a == 0 || b == 0 {
                        Err("Playlist indices must start from 1"@)
                    } else if a > b {
                        Err("Invalid range: "@ + decimal(a as nat) + " > "@ + decimal(b as nat))
                    } else {
                        Ok(Set::new(|x: usize| a <= x && x <= b))
                    },
                },
            }
        }
    } else {
        match parse_usize_spec(part) {
            None => Err("Invalid number: "@ + part),
            Some(n) => if n == 0 { Err("Playlist indices must start from 1"@) } else { Ok(set![n]) },
        }
    }
}

/// The indices a comma-separated selection names, or the message rejecting its first bad item.
pub open spec fn items_from(parts: Seq<Seq<char>>) -> Result<Set<usize>, Seq<char>>
    decreases parts.len(),
{
    if parts.len() == 0 {
        Ok(Set::empty())
    } else {
        match part_items(trim_ws(parts[0])) {
            Err(m) => Err(m),
            Ok(xs) => match items_from(parts.skip(1)) {
                Err(m) => Err(m),
                Ok(rest) => Ok(xs.union(rest)),
            },
        }
    }
}

pub open spec fn strictly_increasing(v: Seq<usize>) -> bool {
    forall|i: int, j: int| 0 <= i < j < v.len() ==> v[i] < v[j]
}

proof fn lemma_push_contains<A>(s: Seq<A>, x: A, y: A)
    ensures
        s.push(x).contains(y) <==> (s.contains(y) || y == x),
{
    if s.push(x).contains(y) && y != x {
        let j = choose|j: int| 0 <= j < s.push(x).len() && s.push(x)[j] == y;
        assert(s[j] == y);
    }
    if s.contains(y) {
        let j = choose|j: int| 0 <= j < s.len() && s[j] == y;
        assert(s.push(x)[j] == y);
    }
    if y == x {
        assert(s.push(x)[s.len() as int] == y);
    }
}

proof fn lemma_push_to_set<A>(s: Seq<A>, x: A)
    ensures
        s.push(x).to_set() == s.to_set().insert(x),
{
    assert forall|y: A| s.push(x).to_set().contains(y) <==> s.to_set().insert(x).contains(y) by {
        lemma_push_contains(s, x, y);
    }
    assert(s.push(x).to_set() =~= s.to_set().insert(x));
}

/// Relies on `slice::sort_unstable`: the same elements, in ascending order.
#[verifier::external_body]
fn sort_ascending(v: &mut Vec<usize>)
    ensures
        final(v)@.to_multiset() == old(v)@.to_multiset(),
        forall|i: int, j: int| 0 <= i < j < final(v)@.len() ==> final(v)@[i] <= final(v)@[j],
{
    v.sort_unstable();
}

/// The indices one trimmed item names, appended to `out`.
fn push_part(out: &mut Vec<usize>, pv: &Vec<char>) -> (r: Result<(), String>)
    ensures
        match part_items(pv@) {
            Ok(xs) => r is Ok && final(out)@.to_set() == old(out)@.to_set().union(xs),
            Err(m) => r matches Err(e) && e@ == m,
        },
{
    let dash = chars_of("-");
    let part = crate::text::string_of(pv, 0, pv.len());
    assert(pv@.subrange(0, pv@.len() as int) =~= pv@);
    if find_chars(pv, &dash, 0).is_some() {
        let rp = split_chars(pv, 0, pv.len(), '-');
        if rp.len() != 2 {
            return Err(message("Invalid range format: ", part.as_str()));
        }
        let r0 = chars_of(rp[0].as_str());
        let r1 = chars_of(rp[1].as_str());
        let (a0, a1) = trim_range(&r0, 0, r0.len());
        let (b0, b1) = trim_range(&r1, 0, r1.len());
        assert(r0@.subrange(0, r0@.len() as int) =~= r0@);
        assert(r1@.subrange(0, r1@.len() as int) =~= r1@);
        let start = match crate::text::parse_u64_chars(&r0, a0, a1) {
            Some(n) => if n <= usize::MAX as u64 { n as usize } else {
                return Err(message("Invalid number in range: ", rp[0].as_str()));
            },
            None => return Err(message("Invalid number in range: ", rp[0].as_str())),
        };
        let end = match crate::text::parse_u64_chars(&r1, b0, b1) {
            Some(n) => if n <= usize::MAX as u64 { n as usize } else {
                return Err(message("Invalid number in range: ", rp[1].as_str()));
            },
            None => return Err(message("Invalid number in range: ", rp[1].as_str())),
        };
        if start == 0 || end == 0 {
            return Err(String::from_str("Playlist indices must start from 1"));
        }
        if start > end {
            let mut m = String::from_str("Invalid range: ");
            crate::text::push_decimal(&mut m, start as u64);
            let mut m = m.concat(" > ");
            crate::text::push_decimal(&mut m, end as u64);
            return Err(m);
        }
        let ghost base = out@.to_set();
        let mut i = start;
        while i < end
            invariant
                start <= i <= end,
                out@.to_set() == base.union(Set::new(|x: usize| start <= x && x < i)),
            decreases end - i,
        {
            let ghost prev = out@;
            out.push(i);
            proof { lemma_push_to_set(prev, i); }
            i = i + 1;
            assert(out@.to_set() =~= base.union(Set::new(|x: usize| start <= x && x < i)));
        }
        let ghost prev = out@;
        out.push(end);
        proof { lemma_push_to_set(prev, end); }
        assert(out@.to_set() =~= base.union(Set::new(|x: usize| start <= x && x <= end)));
        Ok(())
    } else {
        match crate::text::parse_u64_chars(pv, 0, pv.len()) {
            Some(n) => {
                if n > usize::MAX as u64 {
                    return Err(message("Invalid number: ", part.as_str()));
                }
                if n == 0 {
                    return Err(String::from_str("Playlist indices must start from 1"));
                }
                let ghost prev = out@;
                out.push(n as usize);
                proof { lemma_push_to_set(prev, n as usize); }
                assert(out@.to_set() =~= prev.to_set().union(set![n as usize]));
                Ok(())
            },
            None => Err(message("Invalid number: ", part.as_str())),
        }
    }
}

/// Parses a selection such as `1,3-5,7` into sorted distinct 1-based indices.
pub fn parse_playlist_items(items_str: &str) -> (r: Result<Vec<usize>, String>)
    ensures
        match items_from(split_on(items_str@, ',')) {
            Ok(set) => r matches Ok(v) && strictly_increasing(v@) && v@.to_set() == set,
            Err(m) => r matches Err(e) && e@ == m,
        },
{
    let v = chars_of(items_str);
    let parts = split_chars(&v, 0, v.len(), ',');
    assert(v@.subrange(0, v@.len() as int) =~= v@);
    let ghost all = strings_view(parts@);
    let mut indices: Vec<usize> = Vec::new();
    let mut i: usize = 0;
    assert(all.skip(0) =~= all);
    while i < parts.len()
        invariant
            i <= parts.len(),
            all == strings_view(parts@),
            all == split_on(items_str@, ','),
            items_from(all) matches Ok(total) ==> (items_from(all.skip(i as int)) matches Ok(rest)
                && total == indices@.to_set().union(rest)),
            items_from(all) is Err ==> items_from(all.skip(i as int)) == items_from(all),
            i == 0 ==> indices@.len() == 0,
        decreases parts.len() - i,
    {
        let pc = chars_of(parts[i].as_str());
        let (a, b) = trim_range(&pc, 0, pc.len());
        assert(pc@.subrange(0, pc@.len() as int) =~= pc@);
        let trimmed = crate::text::string_of(&pc, a, b);
        let tv = chars_of(trimmed.as_str());
        let ghost tail = all.skip(i as int);
        assert(tail[0] == pc@);
        assert(tail.skip(1) =~= all.skip(i + 1));
        match push_part(&mut indices, &tv) {
            Ok(()) => {},
            Err(e) => {
                proof {
                    if items_from(all) matches Ok(total) {
                        assert(items_from(tail) is Ok);
                    }
                }
                return Err(e);
            },
        }
        i = i + 1;
    }
    let ghost unsorted = indices@;
    sort_ascending(&mut indices);
    proof {
        broadcast use vstd::seq_lib::group_to_multiset_ensures;
    }
    assert forall|x: usize| indices@.contains(x) <==> unsorted.contains(x) by {
        assert(indices@.to_multiset().count(x) == unsorted.to_multiset().count(x));
    }
    let mut out: Vec<usize> = Vec::new();
    let mut k: usize = 0;
    while k < indices.len()
        invariant
            k <= indices.len(),
            strictly_increasing(out@),
            forall|i0: int, j0: int| 0 <= i0 < j0 < indices@.len() ==> indices@[i0] <= indices@[j0],
            out@.len() <= k,
            out@.len() > 0 ==> out@.last() == indices@[k - 1],
            forall|x: usize| #[trigger] out@.contains(x) <==> indices@.take(k as int).contains(x),
        decreases indices.len() - k,
    {
        let x = indices[k];
        let ghost prev = out@;
        assert(indices@.take(k + 1) =~= indices@.take(k as int).push(x));
        if out.len() == 0 || out[out.len() - 1] != x {
            proof {
                if prev.len() > 0 {
                    assert(prev.last() == indices@[k - 1]);
                    assert(indices@[k - 1] <= indices@[k as int]);
                    assert(prev.last() < x);
                }
            }
            out.push(x);
            assert forall|a0: int, b0: int| 0 <= a0 < b0 < out@.len() implies out@[a0] < out@[b0] by {
                if b0 == out@.len() - 1 {
                    if a0 < prev.len() - 1 {
                        assert(prev[a0] < prev[prev.len() - 1]);
                    }
                } else {
                    assert(out@[a0] == prev[a0] && out@[b0] == prev[b0]);
                }
            }
            assert forall|y: usize| #[trigger] out@.contains(y) <==> indices@.take(k + 1).contains(y) by {
                lemma_push_contains(prev, x, y);
                lemma_push_contains(indices@.take(k as int), x, y);
            }
        } else {
            assert(prev[prev.len() - 1] == x);
            assert forall|y: usize| #[trigger] out@.contains(y) <==> indices@.take(k + 1).contains(y) by {
                lemma_push_contains(indices@.take(k as int), x, y);
                if y == x {
                    assert(out@[prev.len() - 1] == x);
                }
            }
        }
        k = k + 1;
    }
    assert(indices@.take(k as int) =~= indices@);
    assert(out@.to_set() =~= indices@.to_set()) by {
        assert forall|x: usize| out@.to_set().contains(x) <==> indices@.to_set().contains(x) by {
            assert(indices@.take(k as int) == indices@);
        }
    }
    assert(unsorted.to_set() =~= indices@.to_set());
    assert(items_from(all.skip(i as int)) == Ok::<Set<usize>, Seq<char>>(Set::empty())) by {
        assert(all.skip(i as int).len() == 0);
    }
    assert(unsorted.to_set().union(Set::<usize>::empty()) =~= unsorted.to_set());
    Ok(out)
}

/// A copy of a track with the same content.
pub fn copy_audio(a: &Audio) -> (r: Audio)
    ensures
        r@ == a@,
{
    let cover = match &a.cover {
        Some(c) => Some(c.clone()),
        None => None,
    };
    Audio {
        id: a.id.clone(),
        title: a.title.clone(),
        download_url: a.download_url.clone(),
        cover,
        duration: a.duration,
        format: a.format,
        platform: a.platform,
    }
}

/// The tracks at the in-range 1-based indices, in index order.
pub open spec fn kept_spec(audios: Seq<Audio>, idx: Seq<usize>) -> Seq<crate::model::TrackView>
    decreases idx.len(),
{
    if idx.len() == 0 {
        Seq::empty()
    } else {
        let r = kept_spec(audios, idx.drop_last());
        let i = idx.last();
        if 1 <= i && i <= audios.len() { r.push(audios[i - 1]@) } else { r }
    }
}

/// The indices that name no track, in order.
pub open spec fn skipped_spec(n: nat, idx: Seq<usize>) -> Seq<usize>
    decreases idx.len(),
{
    if idx.len() == 0 {
        Seq::empty()
    } else {
        let r = skipped_spec(n, idx.drop_last());
        let i = idx.last();
        if 1 <= i && i <= n { r } else { r.push(i) }
    }
}

/// Picks the tracks at 1-based indices, in the order given, and lists the indices past the end.
pub fn select_items(audios: &Vec<Audio>, indices: &Vec<usize>) -> (r: (Vec<Audio>, Vec<usize>))
    ensures
        crate::model::tracks_of(r.0@) == kept_spec(audios@, indices@),
        r.1@ == skipped_spec(audios@.len(), indices@),
{
    let mut kept: Vec<Audio> = Vec::new();
    let mut skipped: Vec<usize> = Vec::new();
    let mut k: usize = 0;
    while k < indices.len()
        invariant
            k <= indices.len(),
            crate::model::tracks_of(kept@) == kept_spec(audios@, indices@.take(k as int)),
            skipped@ == skipped_spec(audios@.len(), indices@.take(k as int)),
        decreases indices.len() - k,
    {
        let idx = indices[k];
        assert(indices@.take(k + 1).drop_last() =~= indices@.take(k as int));
        if idx >= 1 && idx <= audios.len() {
            let a = copy_audio(&audios[idx - 1]);
            let ghost prev = kept@;
            kept.push(a);
            assert(crate::model::tracks_of(kept@) =~= crate::model::tracks_of(prev).push(a@));
        } else {
            skipped.push(idx);
        }
        k = k + 1;
    }
    assert(indices@.take(k as int) =~= indices@);
    (kept, skipped)
}

/// Keeps the tracks a selection names, in ascending index order, and lists the selected indices
/// past the end; a selection that names no track is an error.
pub fn filter_playlist_items(audios: Vec<Audio>, items_str: &str) -> (r: Result<(Vec<Audio>, Vec<usize>), String>)
    ensures
        match items_from(split_on(items_str@, ',')) {
            Err(m) => r matches Err(e) && e@ == m,
            Ok(set) => exists|v: Seq<usize>| strictly_increasing(v) && v.to_set() == set && match r {
                Ok(out) => kept_spec(audios@, v).len() > 0
                    && crate::model::tracks_of(out.0@) == kept_spec(audios@, v)
                    && out.1@ == skipped_spec(audios@.len(), v),
                Err(e) => kept_spec(audios@, v).len() == 0 && e@ == "No valid items selected from playlist"@,
            },
        },
{
    let indices = match parse_playlist_items(items_str) {
        Ok(v) => v,
        Err(e) => return Err(e),
    };
    let (kept, skipped) = select_items(&audios, &indices);
    if kept.len() == 0 {
        return Err(String::from_str("No valid items selected from playlist"));
    }
    Ok((kept, skipped))
}

} // verus!
