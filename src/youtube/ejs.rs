//! Descrambling of obfuscated stream URLs: one batched challenge job for all candidates,
//! then per-candidate rewriting of the query.

use vstd::prelude::*;
use crate::error::{message, MusicFreeError};
use crate::text::{chars_of, find, find_chars};
use crate::urls::{
    url_query_of,
    extend_pairs, first_value, first_value_of, form_pairs, form_pairs_of, last_value, last_value_of, opt_view,
    pairs_view, query_pairs, query_pairs_of, url_with_pairs, url_with_pairs_of,
};
use crate::youtube::types::Format;
use ytdlp_ejs::{JsChallengeInput, JsChallengeOutput, JsChallengeRequest, JsChallengeResponse, JsChallengeType, RuntimeType};

verus! {

/// What one candidate needs before it can be fetched: its base URL, the throttling token
/// when there is one, and the scrambled signature with the parameter it is written back under.
#[derive(Debug)]
pub struct CipherTask {
    pub url: String,
    pub n: Option<String>,
    pub sig: Option<(String, String)>,
}

/// The abstract content of a [`CipherTask`].
pub struct TaskSpec {
    pub url: Seq<char>,
    pub n: Option<Seq<char>>,
    pub sig: Option<(Seq<char>, Seq<char>)>,
}

impl View for CipherTask {
    type V = TaskSpec;

    open spec fn view(&self) -> TaskSpec {
        TaskSpec {
            url: self.url@,
            n: opt_view(self.n),
            sig: match self.sig {
                Some(p) => Some((p.0@, p.1@)),
                None => None,
            },
        }
    }
}

/// Why a candidate could not be planned.
pub enum PlanFailure {
    MissingN,
    BadUrl(Seq<char>),
    MissingUrl,
    MissingS,
    NoAccess,
}

/// Why a planned candidate could not be rewritten.
pub enum ApplyFailure {
    NoThrottleAnswer,
    NoN,
    NoSig,
    BadUrl(Seq<char>),
}

/// A plain URL is throttled when it carries both an `n` and a `sig` parameter.
pub open spec fn needs_throttle(u: Seq<char>) -> bool {
    find(u, "&n="@) is Some && find(u, "&sig="@) is Some
}

/// The task for a throttled or ciphered URL: its `n` query parameter is required.
pub open spec fn with_n(u: Seq<char>, sig: Option<(Seq<char>, Seq<char>)>) -> Result<TaskSpec, PlanFailure> {
    match query_pairs_of(u) {
        None => Err(PlanFailure::BadUrl(u)),
        Some(q) => match first_value(q, "n"@) {
            None => Err(PlanFailure::MissingN),
            Some(n) => Ok(TaskSpec { url: u, n: Some(n), sig }),
        },
    }
}

/// What a candidate needs, from its access form.
pub open spec fn plan_spec(f: Format) -> Result<TaskSpec, PlanFailure> {
    match f.url {
        Some(u) => if needs_throttle(u@) {
            with_n(u@, None)
        } else {
            Ok(TaskSpec { url: u@, n: None, sig: None })
        },
        None => match f.signature_cipher {
            None => Err(PlanFailure::NoAccess),
            Some(c) => {
                let p = form_pairs_of(c@);
                match last_value(p, "url"@) {
                    None => Err(PlanFailure::MissingUrl),
                    Some(u) => {
                        let sp = match last_value(p, "sp"@) {
                            Some(x) => x,
                            None => "sig"@,
                        };
                        match last_value(p, "s"@) {
                            None => Err(PlanFailure::MissingS),
                            Some(s) => with_n(u, Some((s, sp))),
                        }
                    },
                }
            },
        },
    }
}

/// The library error a planning failure is reported as.
pub open spec fn plan_error(e: MusicFreeError, f: PlanFailure) -> bool {
    match f {
        PlanFailure::MissingN => e matches MusicFreeError::CipherParseError(m) && m@ == "Parameter 'n' not found in URL"@,
        PlanFailure::BadUrl(u) => e matches MusicFreeError::CipherParseError(m) && m@ == "Failed to parse URL: "@ + u,
        PlanFailure::MissingUrl => e matches MusicFreeError::CipherParseError(m) && m@ == "Missing url in cipher"@,
        PlanFailure::MissingS => e matches MusicFreeError::CipherParseError(m) && m@ == "Missing s in cipher"@,
        PlanFailure::NoAccess => e is AudioNotFound,
    }
}

/// The library error a rewriting failure is reported as.
pub open spec fn apply_error(e: MusicFreeError, f: ApplyFailure) -> bool {
    match f {
        ApplyFailure::NoThrottleAnswer => e matches MusicFreeError::JsDecryptionFailed(m)
            && m@ == "Failed to get valid response for n parameter"@,
        ApplyFailure::NoN => e matches MusicFreeError::JsDecryptionFailed(m) && m@ == "Failed to decrypt n parameter"@,
        ApplyFailure::NoSig => e matches MusicFreeError::JsDecryptionFailed(m) && m@ == "Failed to decrypt s parameter"@,
        ApplyFailure::BadUrl(u) => e matches MusicFreeError::CipherParseError(m) && m@ == "Failed to parse URL: "@ + u,
    }
}

/// The pairs whose key is not among `keys`, in order.
pub open spec fn without_keys(p: Seq<(Seq<char>, Seq<char>)>, keys: Seq<Seq<char>>) -> Seq<(Seq<char>, Seq<char>)>
    decreases p.len(),
{
    if p.len() == 0 {
        Seq::empty()
    } else {
        let rest = without_keys(p.drop_last(), keys);
        if keys.contains(p.last().0) { rest } else { rest.push(p.last()) }
    }
}

/// `url` with the pairs named in `remove` dropped and `add` appended to its query.
pub open spec fn rewrite_spec(
    url: Seq<char>,
    remove: Seq<Seq<char>>,
    add: Seq<(Seq<char>, Seq<char>)>,
) -> Result<Seq<char>, ApplyFailure> {
    match query_pairs_of(url) {
        None => Err(ApplyFailure::BadUrl(url)),
        Some(p) => match url_with_pairs_of(url, without_keys(p, remove) + add) {
            Some(r) => Ok(r),
            None => Err(ApplyFailure::BadUrl(url)),
        },
    }
}

/// The fetchable URL of a planned candidate, given the solver's answers (token to value).
pub open spec fn apply_spec(t: TaskSpec, a: Seq<(Seq<char>, Seq<char>)>) -> Result<Seq<char>, ApplyFailure> {
    match t.n {
        None => Ok(t.url),
        Some(n) => match t.sig {
            None => match last_value(a, n) {
                None => Err(ApplyFailure::NoThrottleAnswer),
                Some(nn) => rewrite_spec(t.url, seq!["n"@], seq![("n"@, nn)]),
            },
            Some(sig) => match last_value(a, n) {
                None => Err(ApplyFailure::NoN),
                Some(nn) => match last_value(a, sig.0) {
                    None => Err(ApplyFailure::NoSig),
                    Some(ns) => rewrite_spec(t.url, seq!["n"@, sig.1], seq![("n"@, nn), (sig.1, ns)]),
                },
            },
        },
    }
}

/// No two tokens are the same text.
pub open spec fn distinct(s: Seq<String>) -> bool {
    forall|i: int, j: int| 0 <= i < j < s.len() ==> s[i]@ != s[j]@
}

/// `tok` is among `s`.
pub open spec fn has_token(s: Seq<String>, tok: Seq<char>) -> bool {
    exists|j: int| 0 <= j < s.len() && (#[trigger] s[j])@ == tok
}

/// The throttling token a planned candidate asks for.
pub open spec fn task_n(t: Result<CipherTask, MusicFreeError>) -> Option<Seq<char>> {
    match t {
        Ok(c) => c@.n,
        Err(_) => None,
    }
}

/// The signature token a planned candidate asks for.
pub open spec fn task_sig(t: Result<CipherTask, MusicFreeError>) -> Option<Seq<char>> {
    match t {
        Ok(c) => match c@.sig {
            Some(p) => Some(p.0),
            None => None,
        },
        Err(_) => None,
    }
}

/// One batched request to the challenge solver.
#[derive(Debug)]
pub struct ChallengeJob {
    pub n_tokens: Vec<String>,
    pub sig_tokens: Vec<String>,
}

/// The answers of all responses that succeeded, in response order.
pub open spec fn merged(rs: Seq<Result<Vec<(String, String)>, String>>) -> Seq<(Seq<char>, Seq<char>)>
    decreases rs.len(),
{
    if rs.len() == 0 {
        Seq::empty()
    } else {
        match rs.last() {
            Ok(v) => merged(rs.drop_last()) + pairs_view(v@),
            Err(_) => merged(rs.drop_last()),
        }
    }
}

fn with_n_exec(u: String, sig: Option<(String, String)>) -> (r: Result<CipherTask, MusicFreeError>)
    ensures
        match with_n(u@, match sig { Some(p) => Some((p.0@, p.1@)), None => None }) {
            Ok(t) => r matches Ok(c) && c@ == t,
            Err(f) => r matches Err(e) && plan_error(e, f),
        },
{
    match query_pairs(u.as_str()) {
        None => Err(MusicFreeError::CipherParseError(message("Failed to parse URL: ", u.as_str()))),
        Some(q) => match first_value_of(&q, "n") {
            None => Err(MusicFreeError::CipherParseError(String::from_str("Parameter 'n' not found in URL"))),
            Some(n) => Ok(CipherTask { url: u, n: Some(n), sig }),
        },
    }
}

fn contains_text(hay: &str, pat: &str) -> (r: bool)
    ensures
        r == (find(hay@, pat@) is Some),
{
    let h = chars_of(hay);
    let p = chars_of(pat);
    find_chars(&h, &p, 0).is_some()
}

/// Works out what a candidate needs: nothing for a plain URL, the throttling token for a
/// throttled one, the throttling token and the signature for a ciphered one.
pub fn plan_candidate(f: &Format) -> (r: Result<CipherTask, MusicFreeError>)
    ensures
        match plan_spec(*f) {
            Ok(t) => r matches Ok(c) && c@ == t,
            Err(e) => r matches Err(x) && plan_error(x, e),
        },
{
    if let Some(u) = &f.url {
        if contains_text(u.as_str(), "&n=") && contains_text(u.as_str(), "&sig=") {
            return with_n_exec(u.clone(), None);
        }
        return Ok(CipherTask { url: u.clone(), n: None, sig: None });
    }
    match &f.signature_cipher {
        None => Err(MusicFreeError::AudioNotFound),
        Some(c) => {
            let p = form_pairs(c.as_str());
            match last_value_of(&p, "url") {
                None => Err(MusicFreeError::CipherParseError(String::from_str("Missing url in cipher"))),
                Some(u) => {
                    let sp = match last_value_of(&p, "sp") {
                        Some(x) => x,
                        None => String::from_str("sig"),
                    };
                    match last_value_of(&p, "s") {
                        None => Err(MusicFreeError::CipherParseError(String::from_str("Missing s in cipher"))),
                        Some(s) => with_n_exec(u, Some((s, sp))),
                    }
                },
            }
        },
    }
}

fn push_distinct(v: &mut Vec<String>, x: &String)
    requires
        distinct(old(v)@),
    ensures
        distinct(final(v)@),
        has_token(final(v)@, x@),
        forall|t: Seq<char>| has_token(final(v)@, t) <==> (has_token(old(v)@, t) || t == x@),
{
    let mut i: usize = 0;
    while i < v.len()
        invariant
            i <= v.len(),
            distinct(v@),
            forall|j: int| 0 <= j < i ==> (#[trigger] v@[j])@ != x@,
        decreases v.len() - i,
    {
        if v[i] == *x {
            assert(forall|t: Seq<char>| has_token(v@, t) <==> (has_token(v@, t) || t == x@));
            return;
        }
        i = i + 1;
    }
    let ghost before = v@;
    v.push(x.clone());
    assert(v@[before.len() as int] == *x);
    assert forall|t: Seq<char>| has_token(v@, t) <==> (has_token(before, t) || t == x@) by {
        if has_token(before, t) {
            let j = choose|j: int| 0 <= j < before.len() && (#[trigger] before[j])@ == t;
            assert(v@[j] == before[j]);
        }
        if has_token(v@, t) {
            let j = choose|j: int| 0 <= j < v@.len() && (#[trigger] v@[j])@ == t;
            if j < before.len() {
                assert(v@[j] == before[j]);
            }
        }
    }
}

/// Collects every distinct token the planned candidates ask for into one job: each token once,
/// and no token that no candidate asks for.
pub fn build_job(tasks: &Vec<Result<CipherTask, MusicFreeError>>) -> (job: ChallengeJob)
    ensures
        distinct(job.n_tokens@),
        distinct(job.sig_tokens@),
        forall|t: Seq<char>| has_token(job.n_tokens@, t)
            <==> exists|i: int| 0 <= i < tasks@.len() && task_n(#[trigger] tasks@[i]) == Some(t),
        forall|t: Seq<char>| has_token(job.sig_tokens@, t)
            <==> exists|i: int| 0 <= i < tasks@.len() && task_sig(#[trigger] tasks@[i]) == Some(t),
{
    let mut n_tokens: Vec<String> = Vec::new();
    let mut sig_tokens: Vec<String> = Vec::new();
    let mut i: usize = 0;
    while i < tasks.len()
        invariant
            i <= tasks.len(),
            distinct(n_tokens@),
            distinct(sig_tokens@),
            forall|t: Seq<char>| has_token(n_tokens@, t)
                <==> exists|k: int| 0 <= k < i && task_n(#[trigger] tasks@[k]) == Some(t),
            forall|t: Seq<char>| has_token(sig_tokens@, t)
                <==> exists|k: int| 0 <= k < i && task_sig(#[trigger] tasks@[k]) == Some(t),
        decreases tasks.len() - i,
    {
        let ghost n_before = n_tokens@;
        let ghost sig_before = sig_tokens@;
        if let Ok(task) = &tasks[i] {
            if let Some(n) = &task.n {
                push_distinct(&mut n_tokens, n);
            }
            if let Some(sig) = &task.sig {
                push_distinct(&mut sig_tokens, &sig.0);
            }
        }
        assert forall|t: Seq<char>| has_token(n_tokens@, t)
            <==> exists|k: int| 0 <= k < i + 1 && task_n(#[trigger] tasks@[k]) == Some(t) by {
            if exists|k: int| 0 <= k < i + 1 && task_n(#[trigger] tasks@[k]) == Some(t) {
                let k = choose|k: int| 0 <= k < i + 1 && task_n(#[trigger] tasks@[k]) == Some(t);
                if k < i {
                    assert(has_token(n_before, t));
                }
            }
        }
        assert forall|t: Seq<char>| has_token(sig_tokens@, t)
            <==> exists|k: int| 0 <= k < i + 1 && task_sig(#[trigger] tasks@[k]) == Some(t) by {
            if exists|k: int| 0 <= k < i + 1 && task_sig(#[trigger] tasks@[k]) == Some(t) {
                let k = choose|k: int| 0 <= k < i + 1 && task_sig(#[trigger] tasks@[k]) == Some(t);
                if k < i {
                    assert(has_token(sig_before, t));
                }
            }
        }
        i = i + 1;
    }
    ChallengeJob { n_tokens, sig_tokens }
}

/// Relies on `ytdlp_ejs::process_input`: runs the vendor script on the job's throttling and
/// signature requests and hands back each response's answers, or the solver's error text.
#[verifier::external_body]
fn solve_challenges(player: String, job: &ChallengeJob) -> (r: Result<Vec<Result<Vec<(String, String)>, String>>, String>)
{
    let requests = vec![
        JsChallengeRequest { challenge_type: JsChallengeType::N, challenges: job.n_tokens.clone() },
        JsChallengeRequest { challenge_type: JsChallengeType::Sig, challenges: job.sig_tokens.clone() },
    ];
    match ytdlp_ejs::process_input(JsChallengeInput::Player { player, requests, output_preprocessed: false }, RuntimeType::QuickJS) {
        JsChallengeOutput::Result { responses, .. } => Ok(responses.into_iter().map(|r| match r {
            JsChallengeResponse::Result { data } => Ok(data.into_iter().collect()),
            JsChallengeResponse::Error { error } => Err(error),
        }).collect()),
        JsChallengeOutput::Error { error } => Err(error),
    }
}

/// Flattens the solver's output: the answers of every response that succeeded, or the
/// solver's own failure.
pub fn merge_answers(out: Result<Vec<Result<Vec<(String, String)>, String>>, String>) -> (r: Result<Vec<(String, String)>, MusicFreeError>)
    ensures
        match out {
            Ok(rs) => r matches Ok(a) && pairs_view(a@) == merged(rs@),
            Err(e) => r matches Err(MusicFreeError::JsDecryptionFailed(m)) && m@ == "JS execution failed: "@ + e@,
        },
{
    match out {
        Err(e) => Err(MusicFreeError::JsDecryptionFailed(message("JS execution failed: ", e.as_str()))),
        Ok(rs) => {
            let mut all: Vec<(String, String)> = Vec::new();
            let mut i: usize = 0;
            while i < rs.len()
                invariant
                    i <= rs.len(),
                    pairs_view(all@) == merged(rs@.take(i as int)),
                decreases rs.len() - i,
            {
                if let Ok(v) = &rs[i] {
                    extend_pairs(&mut all, v);
                }
                i = i + 1;
                assert(rs@.take(i as int).drop_last() =~= rs@.take(i - 1));
            }
            assert(rs@.take(i as int) =~= rs@);
            Ok(all)
        },
    }
}

fn key_in(keys: &Vec<String>, k: &String) -> (r: bool)
    ensures
        r == keys@.map_values(|s: String| s@).contains(k@),
{
    let ghost ks = keys@.map_values(|s: String| s@);
    let mut i: usize = 0;
    while i < keys.len()
        invariant
            i <= keys.len(),
            ks == keys@.map_values(|s: String| s@),
            forall|j: int| 0 <= j < i ==> ks[j] != k@,
        decreases keys.len() - i,
    {
        if keys[i] == *k {
            assert(ks[i as int] == k@);
            return true;
        }
        i = i + 1;
    }
    false
}

/// Rewrites a URL's query: drops every pair named in `remove_keys`, appends `add_params`.
pub fn update_url_query(url: &str, remove_keys: &Vec<String>, add_params: &Vec<(String, String)>) -> (r: Result<String, MusicFreeError>)
    ensures
        match rewrite_spec(url@, remove_keys@.map_values(|s: String| s@), pairs_view(add_params@)) {
            Ok(u) => r matches Ok(s) && s@ == u,
            Err(f) => r matches Err(e) && apply_error(e, f),
        },
        url_query_of(url@) is Some ==> r is Ok,
{
    let ghost keys = remove_keys@.map_values(|s: String| s@);
    match query_pairs(url) {
        None => Err(MusicFreeError::CipherParseError(message("Failed to parse URL: ", url))),
        Some(p) => {
            let mut kept: Vec<(String, String)> = Vec::new();
            let mut i: usize = 0;
            while i < p.len()
                invariant
                    i <= p.len(),
                    keys == remove_keys@.map_values(|s: String| s@),
                    pairs_view(kept@) == without_keys(pairs_view(p@).take(i as int), keys),
                decreases p.len() - i,
            {
                let ghost t = pairs_view(p@).take(i + 1);
                assert(t.drop_last() =~= pairs_view(p@).take(i as int));
                assert(t.last() == (p@[i as int].0@, p@[i as int].1@));
                if !key_in(remove_keys, &p[i].0) {
                    let q = (p[i].0.clone(), p[i].1.clone());
                    proof { crate::urls::lemma_pairs_view_push(kept@, q); }
                    kept.push(q);
                    assert(pairs_view(kept@) =~= without_keys(t, keys));
                }
                i = i + 1;
            }
            assert(pairs_view(p@).take(i as int) =~= pairs_view(p@));
            extend_pairs(&mut kept, add_params);
            match url_with_pairs(url, &kept) {
                Some(u) => Ok(u),
                None => Err(MusicFreeError::CipherParseError(message("Failed to parse URL: ", url))),
            }
        },
    }
}

/// Every token a planned candidate asks for has an answer.
pub open spec fn tokens_answered(t: TaskSpec, a: Seq<(Seq<char>, Seq<char>)>) -> bool {
    &&& (t.n matches Some(n) ==> last_value(a, n) is Some)
    &&& (t.sig matches Some(p) ==> last_value(a, p.0) is Some)
}

/// A candidate whose signature the answers omit fails, and with an error of its own; a
/// sibling whose tokens are all answered meets no such error from the same answers.
pub proof fn lemma_unanswered_signature_fails_alone(
    failing: TaskSpec,
    sibling: TaskSpec,
    a: Seq<(Seq<char>, Seq<char>)>,
)
    requires
        failing.n matches Some(n) && last_value(a, n) is Some,
        failing.sig matches Some(p) && last_value(a, p.0) is None,
        tokens_answered(sibling, a),
    ensures
        apply_spec(failing, a) == Err::<Seq<char>, ApplyFailure>(ApplyFailure::NoSig),
        !(apply_spec(sibling, a) matches Err(f) && (f is NoThrottleAnswer || f is NoN || f is NoSig)),
        sibling.n is None ==> apply_spec(sibling, a) == Ok::<Seq<char>, ApplyFailure>(sibling.url),
{
}

/// The fetchable URL of one planned candidate from the solver's answers; a token the answers
/// omit fails this candidate alone.
pub fn apply_challenge_answers(task: &CipherTask, answers: &Vec<(String, String)>) -> (r: Result<String, MusicFreeError>)
    ensures
        match apply_spec(task@, pairs_view(answers@)) {
            Ok(u) => r matches Ok(s) && s@ == u,
            Err(f) => r matches Err(e) && apply_error(e, f),
        },
        tokens_answered(task@, pairs_view(answers@)) && url_query_of(task@.url) is Some ==> r is Ok,
{
    match &task.n {
        None => Ok(task.url.clone()),
        Some(n) => {
            let new_n = match last_value_of(answers, n.as_str()) {
                Some(x) => x,
                None => {
                    if task.sig.is_none() {
                        return Err(MusicFreeError::JsDecryptionFailed(String::from_str(
                            "Failed to get valid response for n parameter")));
                    }
                    return Err(MusicFreeError::JsDecryptionFailed(String::from_str("Failed to decrypt n parameter")));
                },
            };
            let mut remove: Vec<String> = Vec::new();
            remove.push(String::from_str("n"));
            let mut add: Vec<(String, String)> = Vec::new();
            add.push((String::from_str("n"), new_n));
            match &task.sig {
                None => {
                    assert(remove@.map_values(|s: String| s@) =~= seq!["n"@]);
                    assert(pairs_view(add@) =~= seq![("n"@, new_n@)]);
                    update_url_query(task.url.as_str(), &remove, &add)
                },
                Some(sig) => match last_value_of(answers, sig.0.as_str()) {
                    None => Err(MusicFreeError::JsDecryptionFailed(String::from_str("Failed to decrypt s parameter"))),
                    Some(new_sig) => {
                        remove.push(sig.1.clone());
                        add.push((sig.1.clone(), new_sig));
                        assert(remove@.map_values(|s: String| s@) =~= seq!["n"@, sig.1@]);
                        assert(pairs_view(add@) =~= seq![("n"@, new_n@), (sig.1@, new_sig@)]);
                        update_url_query(task.url.as_str(), &remove, &add)
                    },
                },
            }
        },
    }
}

/// Resolves every candidate's access form with at most one solver run for all of them.
/// A candidate that needs no token keeps its URL whatever the solver does; a candidate whose
/// plan fails reports that failure; the others are rewritten from the solver's answers.
pub fn descramble(formats: &Vec<Format>, player: String) -> (r: Vec<Result<String, MusicFreeError>>)
    ensures
        r@.len() == formats@.len(),
        forall|i: int| 0 <= i < formats@.len() ==> match plan_spec(#[trigger] formats@[i]) {
            Err(f) => r@[i] matches Err(e) && plan_error(e, f),
            Ok(t) => (t.n is None ==> (r@[i] matches Ok(u) && u@ == t.url))
                && (r@[i] matches Ok(u) ==> exists|a: Seq<(Seq<char>, Seq<char>)>| apply_spec(t, a) == Ok::<Seq<char>, ApplyFailure>(u@)),
        },
{
    let mut tasks: Vec<Result<CipherTask, MusicFreeError>> = Vec::new();
    let mut i: usize = 0;
    while i < formats.len()
        invariant
            i <= formats.len(),
            tasks@.len() == i,
            forall|k: int| 0 <= k < i ==> match plan_spec(#[trigger] formats@[k]) {
                Ok(t) => tasks@[k] matches Ok(c) && c@ == t,
                Err(f) => tasks@[k] matches Err(x) && plan_error(x, f),
            },
        decreases formats.len() - i,
    {
        tasks.push(plan_candidate(&formats[i]));
        i = i + 1;
    }
    let job = build_job(&tasks);
    let answers = if job.n_tokens.len() == 0 && job.sig_tokens.len() == 0 {
        Ok(Vec::new())
    } else {
        merge_answers(solve_challenges(player, &job))
    };
    let mut out: Vec<Result<String, MusicFreeError>> = Vec::new();
    let mut k: usize = 0;
    while k < tasks.len()
        invariant
            k <= tasks.len(),
            tasks@.len() == formats@.len(),
            out@.len() == k,
            forall|j: int| 0 <= j < formats@.len() ==> match plan_spec(#[trigger] formats@[j]) {
                Ok(t) => tasks@[j] matches Ok(c) && c@ == t,
                Err(f) => tasks@[j] matches Err(x) && plan_error(x, f),
            },
            forall|j: int| 0 <= j < k ==> match plan_spec(#[trigger] formats@[j]) {
                Err(f) => out@[j] matches Err(e) && plan_error(e, f),
                Ok(t) => (t.n is None ==> (out@[j] matches Ok(u) && u@ == t.url))
                    && (out@[j] matches Ok(u) ==> exists|a: Seq<(Seq<char>, Seq<char>)>| apply_spec(t, a) == Ok::<Seq<char>, ApplyFailure>(u@)),
            },
        decreases tasks.len() - k,
    {
        let ghost fk = formats@[k as int];
        let res = match &tasks[k] {
            Err(e) => Err(e.duplicate()),
            Ok(task) => {
                if task.n.is_none() {
                    assert(apply_spec(task@, Seq::empty()) == Ok::<Seq<char>, ApplyFailure>(task@.url));
                    Ok(task.url.clone())
                } else {
                    match &answers {
                        Ok(a) => {
                            let res = apply_challenge_answers(task, a);
                            proof {
                                if res is Ok {
                                    assert(apply_spec(task@, pairs_view(a@)) == Ok::<Seq<char>, ApplyFailure>(res->Ok_0@));
                                }
                            }
                            res
                        },
                        Err(e) => Err(e.duplicate()),
                    }
                }
            },
        };
        out.push(res);
        k = k + 1;
    }
    out
}

} // verus!
