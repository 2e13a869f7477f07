//! Looking up a GitHub repository for a user: the checks made before the
//! lookup, where to send a user whose App is not installed, and what each
//! reply of GitHub is answered with. The HTTP calls are made by the caller.

use vstd::prelude::*;
use crate::api::validate_github_slug;
use crate::api::github_slug_ok;
use crate::text::{push_str, string_from_range};

verus! {

/// How the server authenticates to GitHub.
#[derive(Debug, Clone, Copy, PartialEq, Eq, Structural)]
pub enum GithubIntegrationStrategy {
    Token,
    App,
}

/// A refused lookup: the HTTP status and the message.
#[derive(Debug, Clone, PartialEq, Eq)]
pub struct RepoLookupError {
    pub status: u16,
    pub message: String,
}

/// What GitHub answered to the repository request: a response with its
/// status code and the status as text (`404 Not Found`), or a request that
/// failed with a message.
#[derive(Debug, Clone, PartialEq, Eq)]
pub enum RepoLookupReply {
    Responded { status: u16, status_text: String },
    RequestFailed { error: String },
}

/// What the lookup comes to: the repository is accessible (its details are
/// read from the response), it is not accessible to the server's token, or
/// the lookup failed.
#[derive(Debug, Clone, PartialEq, Eq)]
pub enum RepoLookupDecision {
    Accessible,
    NotAccessible,
    Failed(RepoLookupError),
}

/// The owner and repository in the path are GitHub slugs (at most 39 and
/// 100 characters); the first that is not gives a bad request.
pub fn validate_repo_path(owner: &str, name: &str) -> (r: Result<(), RepoLookupError>)
    ensures
        github_slug_ok(owner@, 39) && github_slug_ok(name@, 100) ==> r is Ok,
        !github_slug_ok(owner@, 39) ==> (r matches Err(e) && e.status == 400 && e.message@ == "invalid github owner"@),
        github_slug_ok(owner@, 39) && !github_slug_ok(name@, 100) ==> (r matches Err(e) && e.status == 400
            && e.message@ == "invalid github repo"@),
{
    match validate_github_slug("owner", owner, 39) {
        Ok(()) => {},
        Err(message) => {
            proof {
                reveal_strlit("owner");
                reveal_strlit("invalid github ");
                reveal_strlit("invalid github owner");
                assert("invalid github "@ + "owner"@ =~= "invalid github owner"@);
            }
            return Err(RepoLookupError { status: 400, message });
        },
    }
    match validate_github_slug("repo", name, 100) {
        Ok(()) => Ok(()),
        Err(message) => {
            proof {
                reveal_strlit("repo");
                reveal_strlit("invalid github ");
                reveal_strlit("invalid github repo");
                assert("invalid github "@ + "repo"@ =~= "invalid github repo"@);
            }
            Err(RepoLookupError { status: 400, message })
        },
    }
}

/// Where a user is sent to install the server's GitHub App: the App's own
/// installation page when its slug is configured, else the owner's
/// installation settings.
pub open spec fn install_url_spec(owner: Seq<char>, slug: Option<Seq<char>>) -> Seq<char> {
    match slug {
        Some(s) => "https://github.com/apps/"@ + s + "/installations/new"@,
        None => "https://github.com/organizations/"@ + owner + "/settings/installations"@,
    }
}

pub fn app_install_url(owner: &str, slug: Option<&str>) -> (u: String)
    ensures
        u@ == install_url_spec(
            owner@,
            match slug {
                Some(s) => Some(s@),
                None => None,
            },
        ),
{
    let mut out: Vec<char> = Vec::new();
    match slug {
        Some(s) => {
            push_str(&mut out, "https://github.com/apps/");
            push_str(&mut out, s);
            push_str(&mut out, "/installations/new");
        },
        None => {
            push_str(&mut out, "https://github.com/organizations/");
            push_str(&mut out, owner);
            push_str(&mut out, "/settings/installations");
        },
    }
    assert(out@.subrange(0, out@.len() as int) =~= out@);
    string_from_range(&out, 0, out.len())
}

/// The error when the server has no credentials for its strategy.
pub fn credentials_not_configured(strategy: GithubIntegrationStrategy) -> (e: RepoLookupError)
    ensures
        e.status == 503,
        e.message@ == match strategy {
            GithubIntegrationStrategy::Token => "GITHUB_TOKEN is not configured"@,
            GithubIntegrationStrategy::App => "GITHUB_APP_PRIVATE_KEY is not configured"@,
        },
{
    match strategy {
        GithubIntegrationStrategy::Token => RepoLookupError {
            status: 503,
            message: "GITHUB_TOKEN is not configured".to_string(),
        },
        GithubIntegrationStrategy::App => RepoLookupError {
            status: 503,
            message: "GITHUB_APP_PRIVATE_KEY is not configured".to_string(),
        },
    }
}

/// What a reply of GitHub to the repository request is answered with.
pub open spec fn repo_lookup_spec(strategy: GithubIntegrationStrategy, reply: RepoLookupReply, d: RepoLookupDecision) -> bool {
    match reply {
        RepoLookupReply::Responded { status, status_text } => if 200 <= status <= 299 {
            d == RepoLookupDecision::Accessible
        } else if strategy == GithubIntegrationStrategy::Token && (status == 403 || status == 404) {
            d == RepoLookupDecision::NotAccessible
        } else if strategy == GithubIntegrationStrategy::Token && status == 401 {
            d matches RepoLookupDecision::Failed(e) && e.status == 503 && e.message@
                == "Stored GitHub token is invalid \u{2014} run fabro install or update GITHUB_TOKEN"@
        } else {
            d matches RepoLookupDecision::Failed(e) && e.status == 502 && e.message@ == "GitHub repo lookup failed: "@
                + status_text@
        },
        RepoLookupReply::RequestFailed { error } => d matches RepoLookupDecision::Failed(e) && e.status == 502
            && e.message@ == error@,
    }
}

/// Decides what a reply of GitHub to the repository request comes to: a
/// success is accessible; under the token strategy a refusal (403) or an
/// unknown repository (404) is "not accessible" and an unauthorized token
/// (401) is an invalid stored token; anything else is a bad gateway.
pub fn repo_lookup_decision(strategy: GithubIntegrationStrategy, reply: RepoLookupReply) -> (d: RepoLookupDecision)
    ensures
        repo_lookup_spec(strategy, reply, d),
{
    match reply {
        RepoLookupReply::Responded { status, status_text } => {
            if 200 <= status && status <= 299 {
                RepoLookupDecision::Accessible
            } else if strategy == GithubIntegrationStrategy::Token && (status == 403 || status == 404) {
                RepoLookupDecision::NotAccessible
            } else if strategy == GithubIntegrationStrategy::Token && status == 401 {
                RepoLookupDecision::Failed(
                    RepoLookupError {
                        status: 503,
                        message: "Stored GitHub token is invalid \u{2014} run fabro install or update GITHUB_TOKEN".to_string(),
                    },
                )
            } else {
                let mut out: Vec<char> = Vec::new();
                push_str(&mut out, "GitHub repo lookup failed: ");
                push_str(&mut out, status_text.as_str());
                assert(out@.subrange(0, out@.len() as int) =~= out@);
                RepoLookupDecision::Failed(RepoLookupError { status: 502, message: string_from_range(&out, 0, out.len()) })
            }
        },
        RepoLookupReply::RequestFailed { error } => RepoLookupDecision::Failed(RepoLookupError { status: 502, message: error }),
    }
}

/// A repository the server's token cannot see is never reported as an
/// error, and a success is accessible whatever the strategy.
pub proof fn law_token_refusals_are_not_errors(status: u16, status_text: String, d: RepoLookupDecision)
    requires
        repo_lookup_spec(GithubIntegrationStrategy::Token, RepoLookupReply::Responded { status, status_text }, d),
        status == 403 || status == 404,
    ensures
        d == RepoLookupDecision::NotAccessible,
{
}

} // verus!
