use fabro::github_repo::{
    app_install_url, credentials_not_configured, repo_lookup_decision, validate_repo_path,
    GithubIntegrationStrategy, RepoLookupDecision, RepoLookupError, RepoLookupReply,
};

fn responded(status: u16, text: &str) -> RepoLookupReply {
    RepoLookupReply::Responded { status, status_text: text.to_string() }
}

#[test]
fn repo_path_slugs_are_checked_owner_first() {
    assert_eq!(validate_repo_path("fabro-sh", "fabro"), Ok(()));
    assert_eq!(
        validate_repo_path("..", "bad name"),
        Err(RepoLookupError { status: 400, message: "invalid github owner".to_string() })
    );
    assert_eq!(
        validate_repo_path("fabro-sh", "bad name"),
        Err(RepoLookupError { status: 400, message: "invalid github repo".to_string() })
    );
}

#[test]
fn install_url_prefers_the_app_slug() {
    assert_eq!(app_install_url("acme", Some("fabro-bot")), "https://github.com/apps/fabro-bot/installations/new");
    assert_eq!(app_install_url("acme", None), "https://github.com/organizations/acme/settings/installations");
}

#[test]
fn missing_credentials_name_the_secret() {
    assert_eq!(credentials_not_configured(GithubIntegrationStrategy::Token).message, "GITHUB_TOKEN is not configured");
    assert_eq!(
        credentials_not_configured(GithubIntegrationStrategy::App).message,
        "GITHUB_APP_PRIVATE_KEY is not configured"
    );
    assert_eq!(credentials_not_configured(GithubIntegrationStrategy::App).status, 503);
}

#[test]
fn github_replies_decide_the_lookup() {
    assert_eq!(repo_lookup_decision(GithubIntegrationStrategy::Token, responded(200, "200 OK")), RepoLookupDecision::Accessible);
    assert_eq!(repo_lookup_decision(GithubIntegrationStrategy::App, responded(200, "200 OK")), RepoLookupDecision::Accessible);
    assert_eq!(repo_lookup_decision(GithubIntegrationStrategy::Token, responded(404, "404 Not Found")), RepoLookupDecision::NotAccessible);
    assert_eq!(repo_lookup_decision(GithubIntegrationStrategy::Token, responded(403, "403 Forbidden")), RepoLookupDecision::NotAccessible);
    assert_eq!(
        repo_lookup_decision(GithubIntegrationStrategy::Token, responded(401, "401 Unauthorized")),
        RepoLookupDecision::Failed(RepoLookupError {
            status: 503,
            message: "Stored GitHub token is invalid \u{2014} run fabro install or update GITHUB_TOKEN".to_string(),
        })
    );
    assert_eq!(
        repo_lookup_decision(GithubIntegrationStrategy::App, responded(404, "404 Not Found")),
        RepoLookupDecision::Failed(RepoLookupError {
            status: 502,
            message: "GitHub repo lookup failed: 404 Not Found".to_string(),
        })
    );
    assert_eq!(
        repo_lookup_decision(GithubIntegrationStrategy::Token, RepoLookupReply::RequestFailed { error: "connection refused".to_string() }),
        RepoLookupDecision::Failed(RepoLookupError { status: 502, message: "connection refused".to_string() })
    );
}
