//! Server diagnostics: the verdict of each health check (LLM providers,
//! GitHub token or App, sandbox, web search, auth material, storage) from
//! what its probe found, and the report that gathers them.

use vstd::prelude::*;
use crate::api::{short_error_line, short_line_of};
use crate::materializer::{base64_standard, strs};
use crate::text::{dec, format_dec, push_str, push_vec, string_from_chars};
use vstd::utf8::{decode_utf8, valid_utf8};

verus! {

/// How a check came out.
#[derive(Debug, Clone, Copy, PartialEq, Eq, Structural)]
pub enum CheckStatus {
    Pass,
    Warning,
    Error,
}

/// The outcome of one check: its name, status, a one-line summary, detail
/// lines, and what to do about a problem.
#[derive(Debug, Clone, PartialEq, Eq)]
pub struct CheckResult {
    pub name: String,
    pub status: CheckStatus,
    pub summary: String,
    pub details: Vec<String>,
    pub remediation: Option<String>,
}

/// A titled group of checks.
#[derive(Debug, Clone, PartialEq, Eq)]
pub struct CheckSection {
    pub title: String,
    pub checks: Vec<CheckResult>,
}

/// The diagnostics report: the server version and the check sections.
#[derive(Debug, Clone, PartialEq, Eq)]
pub struct DiagnosticsReport {
    pub version: String,
    pub sections: Vec<CheckSection>,
}

pub open spec fn opt_text(o: Option<String>) -> Option<Seq<char>> {
    match o {
        Some(s) => Some(s@),
        None => None,
    }
}

/// A check result by the characters of its texts.
pub open spec fn result_is(
    r: CheckResult,
    name: Seq<char>,
    status: CheckStatus,
    summary: Seq<char>,
    details: Seq<Seq<char>>,
    remediation: Option<Seq<char>>,
) -> bool {
    &&& r.name@ == name
    &&& r.status == status
    &&& r.summary@ == summary
    &&& strs(r.details@) == details
    &&& opt_text(r.remediation) == remediation
}

fn text(s: &str) -> (r: String)
    ensures
        r@ == s@,
{
    s.to_string()
}

fn concat(a: &str, b: &str) -> (r: String)
    ensures
        r@ == a@ + b@,
{
    let mut v: Vec<char> = Vec::new();
    push_str(&mut v, a);
    push_str(&mut v, b);
    string_from_chars(&v)
}

fn concat3(a: &str, b: &str, c: &str) -> (r: String)
    ensures
        r@ == a@ + b@ + c@,
{
    let mut v: Vec<char> = Vec::new();
    push_str(&mut v, a);
    push_str(&mut v, b);
    push_str(&mut v, c);
    string_from_chars(&v)
}

fn one_detail(s: String) -> (v: Vec<String>)
    ensures
        strs(v@) == seq![s@],
{
    let mut v: Vec<String> = Vec::new();
    v.push(s);
    assert(strs(v@) =~= seq![s@]);
    v
}

fn no_details() -> (v: Vec<String>)
    ensures
        strs(v@) == Seq::<Seq<char>>::empty(),
{
    let v: Vec<String> = Vec::new();
    assert(strs(v@) =~= Seq::<Seq<char>>::empty());
    v
}

/// The check that an HTTP client could not be built for: its probe never
/// ran.
pub fn http_client_failure(name: &str, status: CheckStatus, error_chain: &str, error: &str) -> (r: CheckResult)
    ensures
        result_is(r, name@, status, "client error"@, seq![error_chain@], Some(error@)),
{
    CheckResult {
        name: text(name),
        status,
        summary: text("client error"),
        details: one_detail(text(error_chain)),
        remediation: Some(text(error)),
    }
}

// ---------------------------------------------------------------------------
// LLM providers

/// What a probe request to a provider came to.
#[derive(Debug, Clone, PartialEq, Eq)]
pub enum ProbeOutcome {
    Answered,
    /// The request failed; its error chain, rendered.
    Failed { rendered: String },
    /// No answer within the time limit.
    TimedOut,
}

/// What setting up the LLM client found: the credential problems of some
/// providers, the providers that failed to register, and the probe of each
/// configured provider, in order.
#[derive(Debug, Clone, PartialEq, Eq)]
pub struct LlmSetup {
    pub auth_issues: Vec<(String, String)>,
    pub registration_issues: Vec<(String, String)>,
    pub probes: Vec<(String, ProbeOutcome)>,
}

/// The detail line of a probe.
pub open spec fn probe_detail(p: (String, ProbeOutcome)) -> Seq<char> {
    match p.1 {
        ProbeOutcome::Answered => p.0@ + ": OK"@,
        ProbeOutcome::Failed { rendered } => p.0@ + ": "@ + rendered@,
        ProbeOutcome::TimedOut => p.0@ + ": timeout (30s)"@,
    }
}

/// The failure a probe records, if it failed.
pub open spec fn probe_failure(p: (String, ProbeOutcome)) -> Option<(Seq<char>, Seq<char>)> {
    match p.1 {
        ProbeOutcome::Answered => None,
        ProbeOutcome::Failed { rendered } => Some((p.0@, short_line_of(rendered@))),
        ProbeOutcome::TimedOut => Some((p.0@, "timeout (30s)"@)),
    }
}

/// The failures among the probes, in order.
pub open spec fn probe_failures(ps: Seq<(String, ProbeOutcome)>) -> Seq<(Seq<char>, Seq<char>)>
    decreases ps.len(),
{
    if ps.len() == 0 {
        Seq::empty()
    } else {
        probe_failures(ps.drop_last()) + match probe_failure(ps.last()) {
            Some(f) => seq![f],
            None => Seq::empty(),
        }
    }
}

/// The failure an issue records: the provider and the first line of its
/// message.
pub open spec fn issue_failure(i: (String, String)) -> (Seq<char>, Seq<char>) {
    (i.0@, short_line_of(i.1@))
}

/// Every provider failure, in the order reported: credential problems,
/// registration problems, failed probes.
pub open spec fn llm_failures(s: LlmSetup) -> Seq<(Seq<char>, Seq<char>)> {
    s.auth_issues@.map_values(|i: (String, String)| issue_failure(i)) + s.registration_issues@.map_values(
        |i: (String, String)| issue_failure(i),
    ) + probe_failures(s.probes@)
}

/// The detail lines: each credential problem, each registration problem
/// with its provider, each probe.
pub open spec fn llm_details(s: LlmSetup) -> Seq<Seq<char>> {
    s.auth_issues@.map_values(|i: (String, String)| i.1@) + s.registration_issues@.map_values(
        |i: (String, String)| i.0@ + ": "@ + i.1@,
    ) + s.probes@.map_values(|p: (String, ProbeOutcome)| probe_detail(p))
}

/// `provider: line` for each failure, joined by `; `.
pub open spec fn join_failures(fs: Seq<(Seq<char>, Seq<char>)>) -> Seq<char>
    decreases fs.len(),
{
    if fs.len() == 0 {
        Seq::empty()
    } else if fs.len() == 1 {
        fs[0].0 + ": "@ + fs[0].1
    } else {
        join_failures(fs.drop_last()) + "; "@ + fs.last().0 + ": "@ + fs.last().1
    }
}

/// The LLM check: an error when nothing is configured; a pass naming how
/// many providers answered their probe when none failed; else an error
/// naming the failed provider (or how many failed), with each failure's
/// first line as the remedy.
pub open spec fn llm_check_is(s: LlmSetup, r: CheckResult) -> bool {
    let fs = llm_failures(s);
    if s.probes@.len() == 0 && s.auth_issues@.len() == 0 && s.registration_issues@.len() == 0 {
        result_is(r, "LLM Providers"@, CheckStatus::Error, "none configured"@, Seq::empty(), Some("Set at least one provider API key"@))
    } else if fs.len() == 0 {
        result_is(r, "LLM Providers"@, CheckStatus::Pass, dec(s.probes@.len()) + " configured"@, llm_details(s), None)
    } else {
        result_is(
            r,
            "LLM Providers"@,
            CheckStatus::Error,
            if fs.len() == 1 {
                fs[0].0 + " failed"@
            } else {
                dec(fs.len()) + " providers failed"@
            },
            llm_details(s),
            Some(join_failures(fs)),
        )
    }
}

/// The LLM check when the client could not even be set up.
pub fn llm_init_failure(error_chain: &str) -> (r: CheckResult)
    ensures
        result_is(
            r,
            "LLM Providers"@,
            CheckStatus::Error,
            "failed to initialize"@,
            seq![error_chain@],
            Some("Check configured provider credentials"@),
        ),
{
    CheckResult {
        name: text("LLM Providers"),
        status: CheckStatus::Error,
        summary: text("failed to initialize"),
        details: one_detail(text(error_chain)),
        remediation: Some(text("Check configured provider credentials")),
    }
}

/// Appends the detail line and failure of a probe.
fn push_probe(details: &mut Vec<String>, failures: &mut Vec<(String, String)>, p: &(String, ProbeOutcome))
    ensures
        strs(final(details)@) == strs(old(details)@).push(probe_detail(*p)),
        failure_views(final(failures)@) == failure_views(old(failures)@) + match probe_failure(*p) {
            Some(f) => seq![f],
            None => Seq::empty(),
        },
{
    match &p.1 {
        ProbeOutcome::Answered => {
            details.push(concat(p.0.as_str(), ": OK"));
            assert(failure_views(failures@) =~= failure_views(failures@) + Seq::<(Seq<char>, Seq<char>)>::empty());
        },
        ProbeOutcome::Failed { rendered } => {
            failures.push((p.0.clone(), short_error_line(rendered.as_str())));
            details.push(concat3(p.0.as_str(), ": ", rendered.as_str()));
        },
        ProbeOutcome::TimedOut => {
            failures.push((p.0.clone(), text("timeout (30s)")));
            details.push(concat(p.0.as_str(), ": timeout (30s)"));
        },
    }
    assert(strs(details@) =~= strs(old(details)@).push(probe_detail(*p)));
    assert(failure_views(failures@) =~= failure_views(old(failures)@) + match probe_failure(*p) {
        Some(f) => seq![f],
        None => Seq::empty(),
    });
}

/// The characters of each failure.
pub open spec fn failure_views(fs: Seq<(String, String)>) -> Seq<(Seq<char>, Seq<char>)> {
    fs.map_values(|f: (String, String)| (f.0@, f.1@))
}

fn join_failure_list(fs: &Vec<(String, String)>) -> (s: String)
    ensures
        s@ == join_failures(failure_views(fs@)),
{
    let mut out: Vec<char> = Vec::new();
    let mut i: usize = 0;
    while i < fs.len()
        invariant
            i <= fs@.len(),
            out@ == join_failures(failure_views(fs@.take(i as int))),
        decreases fs.len() - i,
    {
        if i > 0 {
            push_str(&mut out, "; ");
        }
        push_str(&mut out, fs[i].0.as_str());
        push_str(&mut out, ": ");
        push_str(&mut out, fs[i].1.as_str());
        proof {
            let t = failure_views(fs@.take(i + 1));
            assert(failure_views(fs@.take(i + 1)).drop_last() =~= failure_views(fs@.take(i as int)));
            assert(t.last() == (fs@[i as int].0@, fs@[i as int].1@));
            if i == 0 {
                assert(t.len() == 1);
            }
        }
        i = i + 1;
    }
    assert(fs@.take(fs@.len() as int) =~= fs@);
    string_from_chars(&out)
}

/// The LLM providers check from what setting up and probing found.
pub fn llm_providers_check(setup: &LlmSetup) -> (r: CheckResult)
    ensures
        llm_check_is(*setup, r),
{
    if setup.probes.len() == 0 && setup.auth_issues.len() == 0 && setup.registration_issues.len() == 0 {
        return CheckResult {
            name: text("LLM Providers"),
            status: CheckStatus::Error,
            summary: text("none configured"),
            details: no_details(),
            remediation: Some(text("Set at least one provider API key")),
        };
    }
    let mut details: Vec<String> = Vec::new();
    let mut failures: Vec<(String, String)> = Vec::new();
    let ghost auth_f = setup.auth_issues@.map_values(|i: (String, String)| issue_failure(i));
    let ghost auth_d = setup.auth_issues@.map_values(|i: (String, String)| i.1@);
    let mut i: usize = 0;
    while i < setup.auth_issues.len()
        invariant
            i <= setup.auth_issues@.len(),
            auth_f == setup.auth_issues@.map_values(|i: (String, String)| issue_failure(i)),
            auth_d == setup.auth_issues@.map_values(|i: (String, String)| i.1@),
            failure_views(failures@) == auth_f.take(i as int),
            strs(details@) == auth_d.take(i as int),
        decreases setup.auth_issues.len() - i,
    {
        let issue = &setup.auth_issues[i];
        let ghost fb = failures@;
        let ghost db = details@;
        failures.push((issue.0.clone(), short_error_line(issue.1.as_str())));
        details.push(issue.1.clone());
        proof {
            assert(auth_f[i as int] == issue_failure(setup.auth_issues@[i as int]));
            assert(auth_d[i as int] == setup.auth_issues@[i as int].1@);
            assert(failure_views(failures@) =~= failure_views(fb).push(auth_f[i as int]));
            assert(strs(details@) =~= strs(db).push(auth_d[i as int]));
            assert(auth_f.take(i + 1) =~= auth_f.take(i as int).push(auth_f[i as int]));
            assert(auth_d.take(i + 1) =~= auth_d.take(i as int).push(auth_d[i as int]));
        }
        i = i + 1;
    }
    proof {
        assert(auth_f.take(auth_f.len() as int) =~= auth_f);
        assert(auth_d.take(auth_d.len() as int) =~= auth_d);
    }
    let ghost reg_f = setup.registration_issues@.map_values(|i: (String, String)| issue_failure(i));
    let ghost reg_d = setup.registration_issues@.map_values(|i: (String, String)| i.0@ + ": "@ + i.1@);
    let mut j: usize = 0;
    while j < setup.registration_issues.len()
        invariant
            j <= setup.registration_issues@.len(),
            reg_f == setup.registration_issues@.map_values(|i: (String, String)| issue_failure(i)),
            reg_d == setup.registration_issues@.map_values(|i: (String, String)| i.0@ + ": "@ + i.1@),
            failure_views(failures@) == auth_f + reg_f.take(j as int),
            strs(details@) == auth_d + reg_d.take(j as int),
        decreases setup.registration_issues.len() - j,
    {
        let issue = &setup.registration_issues[j];
        let ghost fb = failures@;
        let ghost db = details@;
        failures.push((issue.0.clone(), short_error_line(issue.1.as_str())));
        details.push(concat3(issue.0.as_str(), ": ", issue.1.as_str()));
        proof {
            assert(reg_f[j as int] == issue_failure(setup.registration_issues@[j as int]));
            assert(reg_d[j as int] == setup.registration_issues@[j as int].0@ + ": "@
                + setup.registration_issues@[j as int].1@);
            assert(failure_views(failures@) =~= failure_views(fb).push(reg_f[j as int]));
            assert(strs(details@) =~= strs(db).push(reg_d[j as int]));
            assert(reg_f.take(j + 1) =~= reg_f.take(j as int).push(reg_f[j as int]));
            assert(reg_d.take(j + 1) =~= reg_d.take(j as int).push(reg_d[j as int]));
            assert(auth_f + reg_f.take(j + 1) =~= (auth_f + reg_f.take(j as int)).push(reg_f[j as int]));
            assert(auth_d + reg_d.take(j + 1) =~= (auth_d + reg_d.take(j as int)).push(reg_d[j as int]));
        }
        j = j + 1;
    }
    proof {
        assert(reg_f.take(reg_f.len() as int) =~= reg_f);
        assert(reg_d.take(reg_d.len() as int) =~= reg_d);
    }
    let ghost probe_d = setup.probes@.map_values(|p: (String, ProbeOutcome)| probe_detail(p));
    let mut k: usize = 0;
    while k < setup.probes.len()
        invariant
            k <= setup.probes@.len(),
            probe_d == setup.probes@.map_values(|p: (String, ProbeOutcome)| probe_detail(p)),
            failure_views(failures@) == auth_f + reg_f + probe_failures(setup.probes@.take(k as int)),
            strs(details@) == auth_d + reg_d + probe_d.take(k as int),
        decreases setup.probes.len() - k,
    {
        push_probe(&mut details, &mut failures, &setup.probes[k]);
        proof {
            assert(setup.probes@.take(k + 1).drop_last() =~= setup.probes@.take(k as int));
            assert(setup.probes@.take(k + 1).last() == setup.probes@[k as int]);
            assert(strs(details@) =~= auth_d + reg_d + probe_d.take(k + 1));
        }
        k = k + 1;
    }
    proof {
        assert(setup.probes@.take(setup.probes@.len() as int) =~= setup.probes@);
        assert(probe_d.take(probe_d.len() as int) =~= probe_d);
        assert(failure_views(failures@) == llm_failures(*setup));
        assert(strs(details@) == llm_details(*setup));
    }
    if failures.len() == 0 {
        let mut summary: Vec<char> = format_dec(setup.probes.len() as u64);
        push_str(&mut summary, " configured");
        return CheckResult {
            name: text("LLM Providers"),
            status: CheckStatus::Pass,
            summary: string_from_chars(&summary),
            details,
            remediation: None,
        };
    }
    let summary = if failures.len() == 1 {
        concat(failures[0].0.as_str(), " failed")
    } else {
        let mut v: Vec<char> = format_dec(failures.len() as u64);
        push_str(&mut v, " providers failed");
        string_from_chars(&v)
    };
    let remediation = join_failure_list(&failures);
    CheckResult { name: text("LLM Providers"), status: CheckStatus::Error, summary, details, remediation: Some(remediation) }
}

// ---------------------------------------------------------------------------
// GitHub

/// What looking up the server's GitHub token gave.
#[derive(Debug, Clone, PartialEq, Eq)]
pub enum GithubTokenLookup {
    /// A personal access token.
    Pat(String),
    /// An installation token that is still valid.
    Installation(String),
    /// An installation token that has expired, with the reason.
    InstallationExpired(String),
    /// No token configured.
    NotConfigured,
    /// The lookup failed.
    Failed(String),
}

/// The token to probe GitHub with, or the check result that stops there.
pub fn github_token_from_lookup(lookup: GithubTokenLookup) -> (r: Result<String, CheckResult>)
    ensures
        match lookup {
            GithubTokenLookup::Pat(t) | GithubTokenLookup::Installation(t) => r == Ok::<String, CheckResult>(t),
            GithubTokenLookup::InstallationExpired(e) => r matches Err(c) && result_is(
                c,
                "GitHub Token"@,
                CheckStatus::Error,
                "token expired"@,
                seq![e@],
                Some("Run fabro install or update GITHUB_TOKEN"@),
            ),
            GithubTokenLookup::NotConfigured => r matches Err(c) && result_is(
                c,
                "GitHub Token"@,
                CheckStatus::Warning,
                "not configured"@,
                Seq::empty(),
                Some("Run fabro install or set GITHUB_TOKEN"@),
            ),
            GithubTokenLookup::Failed(e) => r matches Err(c) && result_is(
                c,
                "GitHub Token"@,
                CheckStatus::Error,
                "missing token"@,
                seq![e@],
                Some(e@),
            ),
        },
{
    match lookup {
        GithubTokenLookup::Pat(t) => Ok(t),
        GithubTokenLookup::Installation(t) => Ok(t),
        GithubTokenLookup::InstallationExpired(e) => Err(CheckResult {
            name: text("GitHub Token"),
            status: CheckStatus::Error,
            summary: text("token expired"),
            details: one_detail(e),
            remediation: Some(text("Run fabro install or update GITHUB_TOKEN")),
        }),
        GithubTokenLookup::NotConfigured => Err(CheckResult {
            name: text("GitHub Token"),
            status: CheckStatus::Warning,
            summary: text("not configured"),
            details: no_details(),
            remediation: Some(text("Run fabro install or set GITHUB_TOKEN")),
        }),
        GithubTokenLookup::Failed(e) => Err(CheckResult {
            name: text("GitHub Token"),
            status: CheckStatus::Error,
            summary: text("missing token"),
            details: one_detail(e.clone()),
            remediation: Some(e),
        }),
    }
}

/// What an HTTP probe came to: a response with its status code and the
/// status as text, a failed request with its error, or a timeout.
#[derive(Debug, Clone, PartialEq, Eq)]
pub enum HttpProbe {
    Responded { status: u16, status_text: String },
    RequestFailed { error: String },
    TimedOut,
}

pub open spec fn success_status(status: u16) -> bool {
    200 <= status <= 299
}

/// The GitHub token check from its probe of `/user`.
pub fn github_token_probe_check(probe: &HttpProbe) -> (r: CheckResult)
    ensures
        match *probe {
            HttpProbe::Responded { status, status_text } => if success_status(status) {
                result_is(r, "GitHub Token"@, CheckStatus::Pass, "configured"@, Seq::empty(), None)
            } else if status == 401 {
                result_is(
                    r,
                    "GitHub Token"@,
                    CheckStatus::Error,
                    "token invalid"@,
                    seq!["GitHub returned "@ + status_text@],
                    Some("Run fabro install or update GITHUB_TOKEN"@),
                )
            } else {
                result_is(
                    r,
                    "GitHub Token"@,
                    CheckStatus::Error,
                    "connectivity error"@,
                    seq!["GitHub returned "@ + status_text@],
                    Some("Check GitHub connectivity and GITHUB_TOKEN"@),
                )
            },
            HttpProbe::RequestFailed { error } => result_is(
                r,
                "GitHub Token"@,
                CheckStatus::Error,
                "connectivity error"@,
                seq![error@],
                Some("Check GitHub connectivity and GITHUB_TOKEN"@),
            ),
            HttpProbe::TimedOut => result_is(
                r,
                "GitHub Token"@,
                CheckStatus::Error,
                "timeout"@,
                seq!["GitHub probe timed out"@],
                Some("Check GitHub connectivity and GITHUB_TOKEN"@),
            ),
        },
{
    match probe {
        HttpProbe::Responded { status, status_text } => {
            if 200 <= *status && *status <= 299 {
                CheckResult {
                    name: text("GitHub Token"),
                    status: CheckStatus::Pass,
                    summary: text("configured"),
                    details: no_details(),
                    remediation: None,
                }
            } else if *status == 401 {
                CheckResult {
                    name: text("GitHub Token"),
                    status: CheckStatus::Error,
                    summary: text("token invalid"),
                    details: one_detail(concat("GitHub returned ", status_text.as_str())),
                    remediation: Some(text("Run fabro install or update GITHUB_TOKEN")),
                }
            } else {
                CheckResult {
                    name: text("GitHub Token"),
                    status: CheckStatus::Error,
                    summary: text("connectivity error"),
                    details: one_detail(concat("GitHub returned ", status_text.as_str())),
                    remediation: Some(text("Check GitHub connectivity and GITHUB_TOKEN")),
                }
            }
        },
        HttpProbe::RequestFailed { error } => CheckResult {
            name: text("GitHub Token"),
            status: CheckStatus::Error,
            summary: text("connectivity error"),
            details: one_detail(error.clone()),
            remediation: Some(text("Check GitHub connectivity and GITHUB_TOKEN")),
        },
        HttpProbe::TimedOut => CheckResult {
            name: text("GitHub Token"),
            status: CheckStatus::Error,
            summary: text("timeout"),
            details: one_detail(text("GitHub probe timed out")),
            remediation: Some(text("Check GitHub connectivity and GITHUB_TOKEN")),
        },
    }
}

/// The bytes that standard base64 (RFC 4648 alphabet, `=` padding) decodes
/// from a text: those whose standard base64 text it is, if any. The
/// standard engine accepts canonical text only (padding required, unused
/// bits zero), and two byte strings never share a text.
pub open spec fn base64_standard_decoded(text: Seq<char>) -> Option<Seq<u8>> {
    if exists|b: Seq<u8>| base64_standard(b) == text {
        Some(choose|b: Seq<u8>| base64_standard(b) == text)
    } else {
        None
    }
}

/// `base64::engine::general_purpose::STANDARD.decode` of a text: the bytes
/// whose standard base64 text it is, or a failure when there are none, with
/// the decoder's message, whose wording is left open.
#[verifier::external_body]
fn base64_decode(text: &str) -> (r: Result<Vec<u8>, String>)
    ensures
        match r {
            Ok(b) => base64_standard_decoded(text@) == Some(b@),
            Err(_) => base64_standard_decoded(text@) is None,
        },
{
    base64::Engine::decode(&base64::engine::general_purpose::STANDARD, text).map_err(|e| e.to_string())
}

/// `String::from_utf8`: the text of bytes that are valid UTF-8, else its
/// error's message (whose wording is left open).
#[verifier::external_body]
fn string_from_utf8(bytes: Vec<u8>) -> (r: Result<String, String>)
    ensures
        match r {
            Ok(s) => valid_utf8(bytes@) && s@ == decode_utf8(bytes@),
            Err(_) => !valid_utf8(bytes@),
        },
{
    String::from_utf8(bytes).map_err(|e| e.to_string())
}

/// `s` starts with `p`.
pub open spec fn starts_with(s: Seq<char>, p: Seq<char>) -> bool {
    p.len() <= s.len() && s.subrange(0, p.len() as int) == p
}

pub(crate) fn str_starts_with(s: &str, p: &str) -> (b: bool)
    ensures
        b == starts_with(s@, p@),
{
    let sv = crate::text::chars_of(s);
    let pv = crate::text::chars_of(p);
    if pv.len() > sv.len() {
        return false;
    }
    let mut i: usize = 0;
    while i < pv.len()
        invariant
            i <= pv@.len() <= sv@.len(),
            sv@ == s@,
            pv@ == p@,
            forall|j: int| 0 <= j < i ==> sv@[j] == pv@[j],
        decreases pv.len() - i,
    {
        if sv[i] != pv[i] {
            assert(sv@.subrange(0, pv@.len() as int)[i as int] != pv@[i as int]);
            assert(sv@.subrange(0, pv@.len() as int) != pv@);
            return false;
        }
        i = i + 1;
    }
    assert(sv@.subrange(0, pv@.len() as int) =~= pv@);
    true
}

/// What a PEM value in settings or a secret reads as: PEM text as it is
/// (it starts with `-----`), else base64 of PEM text.
pub open spec fn pem_text(value: Seq<char>) -> Option<Seq<char>> {
    if starts_with(value, "-----"@) {
        Some(value)
    } else {
        match base64_standard_decoded(value) {
            Some(b) => if valid_utf8(b) {
                Some(decode_utf8(b))
            } else {
                None
            },
            None => None,
        }
    }
}

/// Reads a PEM value that may be base64-encoded. An error names the value
/// and says whether base64 or UTF-8 decoding failed.
pub fn decode_pem_value(name: &str, value: &str) -> (r: Result<String, String>)
    ensures
        pem_text(value@) matches Some(t) ==> (r matches Ok(s) && s@ == t),
        pem_text(value@) is None ==> (r matches Err(m) && (starts_with(
            m@,
            name@ + " is not valid PEM or base64: "@,
        ) || starts_with(m@, name@ + " base64 decoded to invalid UTF-8: "@))),
        base64_standard_decoded(value@) is None && !starts_with(value@, "-----"@) ==> (r matches Err(m)
            && starts_with(m@, name@ + " is not valid PEM or base64: "@)),
        (!starts_with(value@, "-----"@) && (base64_standard_decoded(value@) matches Some(b) && !valid_utf8(b)))
            ==> (r matches Err(m) && starts_with(m@, name@ + " base64 decoded to invalid UTF-8: "@)),
{
    if str_starts_with(value, "-----") {
        return Ok(value.to_string());
    }
    let bytes = match base64_decode(value) {
        Ok(b) => b,
        Err(e) => {
            let m = concat3(name, " is not valid PEM or base64: ", e.as_str());
            assert((name@ + " is not valid PEM or base64: "@ + e@).subrange(0, (name@ + " is not valid PEM or base64: "@).len() as int) =~= name@ + " is not valid PEM or base64: "@);
            return Err(m);
        },
    };
    match string_from_utf8(bytes) {
        Ok(s) => Ok(s),
        Err(e) => {
            let m = concat3(name, " base64 decoded to invalid UTF-8: ", e.as_str());
            assert((name@ + " base64 decoded to invalid UTF-8: "@ + e@).subrange(0, (name@ + " base64 decoded to invalid UTF-8: "@).len() as int) =~= name@ + " base64 decoded to invalid UTF-8: "@);
            Err(m)
        },
    }
}

/// The GitHub App settings and secrets a check reads.
#[derive(Debug, Clone, PartialEq, Eq)]
pub struct GithubAppSettings {
    pub app_id: Option<String>,
    pub slug: Option<String>,
    pub private_key: Option<String>,
    pub client_id: bool,
    pub client_secret: bool,
    pub webhook_secret: bool,
}

/// The App id and PEM private key to sign with, or the check result that
/// stops there: a warning when nothing of the App is configured, an error
/// when the id or key is missing or the key does not read as PEM.
pub fn github_app_credentials(s: &GithubAppSettings) -> (r: Result<(String, String), CheckResult>)
    ensures
        ({
            let nothing = s.app_id is None && s.private_key is None && !s.client_id && !s.client_secret
                && !s.webhook_secret;
            if nothing {
                r matches Err(c) && result_is(
                    c,
                    "GitHub App"@,
                    CheckStatus::Warning,
                    "not configured"@,
                    Seq::empty(),
                    Some("Configure GitHub App settings and secrets"@),
                )
            } else if s.app_id is None {
                r matches Err(c) && result_is(
                    c,
                    "GitHub App"@,
                    CheckStatus::Error,
                    "missing app_id"@,
                    Seq::empty(),
                    Some("Set [server.integrations.github].app_id in settings.toml"@),
                )
            } else if s.private_key is None {
                r matches Err(c) && result_is(
                    c,
                    "GitHub App"@,
                    CheckStatus::Error,
                    "missing private key"@,
                    Seq::empty(),
                    Some("Set GITHUB_APP_PRIVATE_KEY"@),
                )
            } else {
                match pem_text(s.private_key.unwrap()@) {
                    Some(pem) => r matches Ok(p) && p.0@ == s.app_id.unwrap()@ && p.1@ == pem,
                    None => r matches Err(c) && c.name@ == "GitHub App"@ && c.status == CheckStatus::Error
                        && c.summary@ == "private key invalid"@ && c.details@.len() == 1 && (c.remediation
                        matches Some(m) && m@ == c.details@[0]@),
                }
            }
        }),
{
    if s.app_id.is_none() && s.private_key.is_none() && !s.client_id && !s.client_secret && !s.webhook_secret {
        return Err(CheckResult {
            name: text("GitHub App"),
            status: CheckStatus::Warning,
            summary: text("not configured"),
            details: no_details(),
            remediation: Some(text("Configure GitHub App settings and secrets")),
        });
    }
    let app_id = match &s.app_id {
        Some(a) => a.clone(),
        None => {
            return Err(CheckResult {
                name: text("GitHub App"),
                status: CheckStatus::Error,
                summary: text("missing app_id"),
                details: no_details(),
                remediation: Some(text("Set [server.integrations.github].app_id in settings.toml")),
            });
        },
    };
    let raw = match &s.private_key {
        Some(k) => k,
        None => {
            return Err(CheckResult {
                name: text("GitHub App"),
                status: CheckStatus::Error,
                summary: text("missing private key"),
                details: no_details(),
                remediation: Some(text("Set GITHUB_APP_PRIVATE_KEY")),
            });
        },
    };
    assert(raw@ == s.private_key.unwrap()@);
    assert(app_id@ == s.app_id.unwrap()@);
    match decode_pem_value("GITHUB_APP_PRIVATE_KEY", raw.as_str()) {
        Ok(pem) => {
            assert(pem_text(raw@) is Some ==> pem@ == pem_text(raw@).unwrap());
            Ok((app_id, pem))
        },
        Err(e) => {
            let d = one_detail(e.clone());
            assert(strs(d@).len() == d@.len());
            assert(strs(d@)[0] == d@[0]@);
            Err(CheckResult {
                name: text("GitHub App"),
                status: CheckStatus::Error,
                summary: text("private key invalid"),
                details: d,
                remediation: Some(e),
            })
        },
    }
}

/// The GitHub App check when signing the App's JWT failed.
pub fn github_app_jwt_failure(error_chain: &str, error: &str) -> (r: CheckResult)
    ensures
        result_is(r, "GitHub App"@, CheckStatus::Error, "JWT signing failed"@, seq![error_chain@], Some(error@)),
{
    CheckResult {
        name: text("GitHub App"),
        status: CheckStatus::Error,
        summary: text("JWT signing failed"),
        details: one_detail(text(error_chain)),
        remediation: Some(text(error)),
    }
}

/// What authenticating as the App came to.
#[derive(Debug, Clone, PartialEq, Eq)]
pub enum AppProbe {
    Authenticated,
    Failed { error_chain: String },
    TimedOut,
}

/// The GitHub App check from its authentication probe: a pass named by the
/// App's slug (or `configured`), else an error.
pub fn github_app_probe_check(probe: &AppProbe, slug: Option<String>) -> (r: CheckResult)
    ensures
        match *probe {
            AppProbe::Authenticated => result_is(
                r,
                "GitHub App"@,
                CheckStatus::Pass,
                match slug {
                    Some(s) => s@,
                    None => "configured"@,
                },
                Seq::empty(),
                None,
            ),
            AppProbe::Failed { error_chain } => result_is(
                r,
                "GitHub App"@,
                CheckStatus::Error,
                "connectivity error"@,
                seq![error_chain@],
                Some("Check GitHub App credentials and network connectivity"@),
            ),
            AppProbe::TimedOut => result_is(
                r,
                "GitHub App"@,
                CheckStatus::Error,
                "timeout"@,
                seq!["GitHub probe timed out"@],
                Some("Check GitHub connectivity and credentials"@),
            ),
        },
{
    match probe {
        AppProbe::Authenticated => CheckResult {
            name: text("GitHub App"),
            status: CheckStatus::Pass,
            summary: match slug {
                Some(s) => s,
                None => text("configured"),
            },
            details: no_details(),
            remediation: None,
        },
        AppProbe::Failed { error_chain } => CheckResult {
            name: text("GitHub App"),
            status: CheckStatus::Error,
            summary: text("connectivity error"),
            details: one_detail(error_chain.clone()),
            remediation: Some(text("Check GitHub App credentials and network connectivity")),
        },
        AppProbe::TimedOut => CheckResult {
            name: text("GitHub App"),
            status: CheckStatus::Error,
            summary: text("timeout"),
            details: one_detail(text("GitHub probe timed out")),
            remediation: Some(text("Check GitHub connectivity and credentials")),
        },
    }
}

// ---------------------------------------------------------------------------
// Sandbox and web search

/// The sandbox check when no Daytona key is set.
pub fn sandbox_not_configured() -> (r: CheckResult)
    ensures
        result_is(
            r,
            "Sandbox"@,
            CheckStatus::Warning,
            "recommended, not configured"@,
            Seq::empty(),
            Some("Run `fabro secret set DAYTONA_API_KEY` to enable cloud sandbox execution"@),
        ),
{
    CheckResult {
        name: text("Sandbox"),
        status: CheckStatus::Warning,
        summary: text("recommended, not configured"),
        details: no_details(),
        remediation: Some(text("Run `fabro secret set DAYTONA_API_KEY` to enable cloud sandbox execution")),
    }
}

/// What checking the Daytona key found.
#[derive(Debug, Clone, PartialEq, Eq)]
pub enum DaytonaKeyCheck {
    /// The key has every scope needed; its name.
    Valid { key_name: String },
    /// The key lacks scopes: those missing and those required, as text.
    MissingScopes { missing: String, required: String },
    /// Daytona refused the key, or could not be reached.
    Rejected { error_chain: String },
}

/// The sandbox check from what checking the Daytona key found.
pub fn sandbox_check(outcome: &DaytonaKeyCheck) -> (r: CheckResult)
    ensures
        match *outcome {
            DaytonaKeyCheck::Valid { key_name } => result_is(
                r,
                "Sandbox"@,
                CheckStatus::Pass,
                "Daytona configured ("@ + key_name@ + ")"@,
                Seq::empty(),
                None,
            ),
            DaytonaKeyCheck::MissingScopes { missing, required } => result_is(
                r,
                "Sandbox"@,
                CheckStatus::Error,
                "Daytona API key is missing required scopes"@,
                seq!["missing: "@ + missing@],
                Some(
                    "Regenerate the Daytona API key with scopes: "@ + required@
                        + ", then `fabro secret set DAYTONA_API_KEY`."@,
                ),
            ),
            DaytonaKeyCheck::Rejected { error_chain } => result_is(
                r,
                "Sandbox"@,
                CheckStatus::Error,
                "Daytona credential rejected"@,
                seq![error_chain@],
                Some("Verify DAYTONA_API_KEY value and Daytona reachability"@),
            ),
        },
{
    match outcome {
        DaytonaKeyCheck::Valid { key_name } => CheckResult {
            name: text("Sandbox"),
            status: CheckStatus::Pass,
            summary: concat3("Daytona configured (", key_name.as_str(), ")"),
            details: no_details(),
            remediation: None,
        },
        DaytonaKeyCheck::MissingScopes { missing, required } => CheckResult {
            name: text("Sandbox"),
            status: CheckStatus::Error,
            summary: text("Daytona API key is missing required scopes"),
            details: one_detail(concat("missing: ", missing.as_str())),
            remediation: Some(
                concat3(
                    "Regenerate the Daytona API key with scopes: ",
                    required.as_str(),
                    ", then `fabro secret set DAYTONA_API_KEY`.",
                ),
            ),
        },
        DaytonaKeyCheck::Rejected { error_chain } => CheckResult {
            name: text("Sandbox"),
            status: CheckStatus::Error,
            summary: text("Daytona credential rejected"),
            details: one_detail(error_chain.clone()),
            remediation: Some(text("Verify DAYTONA_API_KEY value and Daytona reachability")),
        },
    }
}

/// The web-search check when no Brave key is set.
pub fn brave_not_configured() -> (r: CheckResult)
    ensures
        result_is(
            r,
            "Web Search (Brave)"@,
            CheckStatus::Warning,
            "optional, not configured"@,
            Seq::empty(),
            Some("Run `fabro secret set BRAVE_SEARCH_API_KEY` to enable web search"@),
        ),
{
    CheckResult {
        name: text("Web Search (Brave)"),
        status: CheckStatus::Warning,
        summary: text("optional, not configured"),
        details: no_details(),
        remediation: Some(text("Run `fabro secret set BRAVE_SEARCH_API_KEY` to enable web search")),
    }
}

/// The web-search check from its probe query. Problems are warnings: the
/// feature is optional.
pub fn brave_search_check(probe: &HttpProbe) -> (r: CheckResult)
    ensures
        match *probe {
            HttpProbe::Responded { status, status_text } => if success_status(status) {
                result_is(r, "Web Search (Brave)"@, CheckStatus::Pass, "configured and reachable"@, Seq::empty(), None)
            } else {
                result_is(
                    r,
                    "Web Search (Brave)"@,
                    CheckStatus::Warning,
                    "HTTP "@ + status_text@,
                    Seq::empty(),
                    Some("Check BRAVE_SEARCH_API_KEY and network connectivity"@),
                )
            },
            HttpProbe::RequestFailed { error } => result_is(
                r,
                "Web Search (Brave)"@,
                CheckStatus::Warning,
                "connectivity error"@,
                seq![error@],
                Some("Check BRAVE_SEARCH_API_KEY and network connectivity"@),
            ),
            HttpProbe::TimedOut => result_is(
                r,
                "Web Search (Brave)"@,
                CheckStatus::Warning,
                "timeout"@,
                seq!["Web Search (Brave) probe timed out"@],
                Some("Check BRAVE_SEARCH_API_KEY and network connectivity"@),
            ),
        },
{
    match probe {
        HttpProbe::Responded { status, status_text } => {
            if 200 <= *status && *status <= 299 {
                CheckResult {
                    name: text("Web Search (Brave)"),
                    status: CheckStatus::Pass,
                    summary: text("configured and reachable"),
                    details: no_details(),
                    remediation: None,
                }
            } else {
                CheckResult {
                    name: text("Web Search (Brave)"),
                    status: CheckStatus::Warning,
                    summary: concat("HTTP ", status_text.as_str()),
                    details: no_details(),
                    remediation: Some(text("Check BRAVE_SEARCH_API_KEY and network connectivity")),
                }
            }
        },
        HttpProbe::RequestFailed { error } => CheckResult {
            name: text("Web Search (Brave)"),
            status: CheckStatus::Warning,
            summary: text("connectivity error"),
            details: one_detail(error.clone()),
            remediation: Some(text("Check BRAVE_SEARCH_API_KEY and network connectivity")),
        },
        HttpProbe::TimedOut => CheckResult {
            name: text("Web Search (Brave)"),
            status: CheckStatus::Warning,
            summary: text("timeout"),
            details: one_detail(text("Web Search (Brave) probe timed out")),
            remediation: Some(text("Check BRAVE_SEARCH_API_KEY and network connectivity")),
        },
    }
}

// ---------------------------------------------------------------------------
// Storage and auth material

pub open spec fn yes_no(b: bool) -> Seq<char> {
    if b {
        "yes"@
    } else {
        "no"@
    }
}

fn yes_no_text(b: bool) -> (s: &'static str)
    ensures
        s@ == yes_no(b),
{
    if b {
        "yes"
    } else {
        "no"
    }
}

/// The storage check from whether the directory exists, can be listed and
/// can be written to: healthy only when all three hold; otherwise the remedy
/// is to create it, or to fix its permissions.
pub fn storage_dir_check(display: &str, exists: bool, readable: bool, writable: bool) -> (r: CheckResult)
    ensures
        result_is(
            r,
            "Storage directory"@,
            if exists && readable && writable {
                CheckStatus::Pass
            } else {
                CheckStatus::Error
            },
            display@,
            seq!["Exists: "@ + yes_no(exists), "Readable: "@ + yes_no(readable), "Writable: "@ + yes_no(writable)],
            if exists && readable && writable {
                None
            } else if !exists {
                Some("Create the directory: mkdir -p "@ + display@)
            } else {
                Some("Fix permissions on "@ + display@)
            },
        ),
{
    let mut details: Vec<String> = Vec::new();
    details.push(concat("Exists: ", yes_no_text(exists)));
    details.push(concat("Readable: ", yes_no_text(readable)));
    details.push(concat("Writable: ", yes_no_text(writable)));
    let healthy = exists && readable && writable;
    let r = CheckResult {
        name: text("Storage directory"),
        status: if healthy {
            CheckStatus::Pass
        } else {
            CheckStatus::Error
        },
        summary: text(display),
        details,
        remediation: if healthy {
            None
        } else if !exists {
            Some(concat("Create the directory: mkdir -p ", display))
        } else {
            Some(concat("Fix permissions on ", display))
        },
    };
    assert(strs(r.details@) =~= seq![
        "Exists: "@ + yes_no(exists),
        "Readable: "@ + yes_no(readable),
        "Writable: "@ + yes_no(writable),
    ]);
    r
}

/// What the auth-material check reads: whether the web UI is on and the
/// session secret (absent, or present with the verdict of its validation),
/// whether dev tokens are an auth method and the dev token (absent, or
/// present and whether its format is valid), and whether GitHub sign-in is
/// a method, with its client id and secret present or not.
#[derive(Debug, Clone, PartialEq, Eq)]
pub struct CryptoInputs {
    pub web_enabled: bool,
    pub session_secret: Option<Result<(), String>>,
    pub dev_token_method: bool,
    pub dev_token_valid: Option<bool>,
    pub github_method: bool,
    pub github_client_id: bool,
    pub github_client_secret: bool,
}

/// The problems with the configured auth material, in order.
pub open spec fn crypto_errors(c: CryptoInputs) -> Seq<Seq<char>> {
    let web: Seq<Seq<char>> = if c.web_enabled {
        match c.session_secret {
            Some(Ok(())) => Seq::empty(),
            Some(Err(e)) => seq![e@],
            None => seq!["SESSION_SECRET not set"@],
        }
    } else {
        Seq::empty()
    };
    let dev: Seq<Seq<char>> = if c.dev_token_method {
        match c.dev_token_valid {
            Some(true) => Seq::empty(),
            Some(false) => seq!["FABRO_DEV_TOKEN has invalid format"@],
            None => seq!["FABRO_DEV_TOKEN not set"@],
        }
    } else {
        Seq::empty()
    };
    let gh: Seq<Seq<char>> = if c.github_method {
        (if c.github_client_id {
            Seq::empty()
        } else {
            seq!["server.integrations.github.client_id is not configured"@]
        }) + (if c.github_client_secret {
            Seq::empty()
        } else {
            seq!["GITHUB_APP_CLIENT_SECRET not set"@]
        })
    } else {
        Seq::empty()
    };
    web + dev + gh
}

/// The texts joined by `; `.
pub open spec fn join_semicolon(items: Seq<Seq<char>>) -> Seq<char>
    decreases items.len(),
{
    if items.len() == 0 {
        Seq::empty()
    } else if items.len() == 1 {
        items[0]
    } else {
        join_semicolon(items.drop_last()) + "; "@ + items.last()
    }
}

fn join_strings(items: &Vec<String>) -> (s: String)
    ensures
        s@ == join_semicolon(strs(items@)),
{
    let mut out: Vec<char> = Vec::new();
    let mut i: usize = 0;
    while i < items.len()
        invariant
            i <= items@.len(),
            out@ == join_semicolon(strs(items@.take(i as int))),
        decreases items.len() - i,
    {
        if i > 0 {
            push_str(&mut out, "; ");
        }
        push_str(&mut out, items[i].as_str());
        proof {
            assert(strs(items@.take(i + 1)).drop_last() =~= strs(items@.take(i as int)));
            if i == 0 {
                assert(strs(items@.take(1)).len() == 1);
            }
        }
        i = i + 1;
    }
    assert(items@.take(items@.len() as int) =~= items@);
    string_from_chars(&out)
}

fn push_text(v: &mut Vec<String>, s: &str)
    ensures
        strs(final(v)@) == strs(old(v)@).push(s@),
{
    v.push(s.to_string());
    assert(strs(v@) =~= strs(old(v)@).push(s@));
}

/// The auth-material check: a pass when nothing is wrong, else an error
/// listing every problem.
pub fn crypto_check(c: &CryptoInputs) -> (r: CheckResult)
    ensures
        crypto_errors(*c).len() == 0 ==> result_is(
            r,
            "Crypto"@,
            CheckStatus::Pass,
            "all configured auth material valid"@,
            Seq::empty(),
            None,
        ),
        crypto_errors(*c).len() > 0 ==> result_is(
            r,
            "Crypto"@,
            CheckStatus::Error,
            "invalid keys found"@,
            crypto_errors(*c),
            Some(join_semicolon(crypto_errors(*c))),
        ),
{
    let mut errors: Vec<String> = Vec::new();
    if c.web_enabled {
        match &c.session_secret {
            Some(Ok(())) => {},
            Some(Err(e)) => push_text(&mut errors, e.as_str()),
            None => push_text(&mut errors, "SESSION_SECRET not set"),
        }
    }
    let ghost after_web = strs(errors@);
    if c.dev_token_method {
        match c.dev_token_valid {
            Some(true) => {},
            Some(false) => push_text(&mut errors, "FABRO_DEV_TOKEN has invalid format"),
            None => push_text(&mut errors, "FABRO_DEV_TOKEN not set"),
        }
    }
    let ghost after_dev = strs(errors@);
    if c.github_method {
        if !c.github_client_id {
            push_text(&mut errors, "server.integrations.github.client_id is not configured");
        }
        if !c.github_client_secret {
            push_text(&mut errors, "GITHUB_APP_CLIENT_SECRET not set");
        }
    }
    assert(strs(errors@) =~= crypto_errors(*c));
    if errors.len() == 0 {
        CheckResult {
            name: text("Crypto"),
            status: CheckStatus::Pass,
            summary: text("all configured auth material valid"),
            details: no_details(),
            remediation: None,
        }
    } else {
        let remediation = join_strings(&errors);
        CheckResult {
            name: text("Crypto"),
            status: CheckStatus::Error,
            summary: text("invalid keys found"),
            details: errors,
            remediation: Some(remediation),
        }
    }
}

/// The report: the credential checks (LLM, GitHub, sandbox, web search),
/// then the configuration checks (auth material, storage).
pub fn diagnostics_report(
    version: String,
    llm: CheckResult,
    github: CheckResult,
    sandbox: CheckResult,
    brave: CheckResult,
    crypto: CheckResult,
    storage: CheckResult,
) -> (r: DiagnosticsReport)
    ensures
        r.version == version,
        r.sections@.len() == 2,
        r.sections@[0].title@ == "Credentials"@,
        r.sections@[0].checks@ == seq![llm, github, sandbox, brave],
        r.sections@[1].title@ == "Configuration"@,
        r.sections@[1].checks@ == seq![crypto, storage],
{
    let mut credentials: Vec<CheckResult> = Vec::new();
    credentials.push(llm);
    credentials.push(github);
    credentials.push(sandbox);
    credentials.push(brave);
    let mut configuration: Vec<CheckResult> = Vec::new();
    configuration.push(crypto);
    configuration.push(storage);
    let mut sections: Vec<CheckSection> = Vec::new();
    sections.push(CheckSection { title: text("Credentials"), checks: credentials });
    sections.push(CheckSection { title: text("Configuration"), checks: configuration });
    assert(sections@[0].checks@ =~= seq![llm, github, sandbox, brave]);
    assert(sections@[1].checks@ =~= seq![crypto, storage]);
    DiagnosticsReport { version, sections }
}

} // verus!
