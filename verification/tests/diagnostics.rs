use fabro::diagnostics::{
    brave_not_configured, brave_search_check, crypto_check, decode_pem_value, diagnostics_report,
    github_app_credentials, github_app_jwt_failure, github_app_probe_check, github_token_from_lookup,
    github_token_probe_check, http_client_failure, llm_init_failure, llm_providers_check,
    sandbox_check, sandbox_not_configured, storage_dir_check, AppProbe, CheckResult, CheckStatus,
    CryptoInputs, DaytonaKeyCheck, GithubAppSettings, GithubTokenLookup, HttpProbe, LlmSetup,
    ProbeOutcome,
};

const PEM: &str = "-----BEGIN KEY-----\nabc\n-----END KEY-----\n";
const PEM_B64: &str = "LS0tLS1CRUdJTiBLRVktLS0tLQphYmMKLS0tLS1FTkQgS0VZLS0tLS0K";

fn s(x: &str) -> String {
    x.to_string()
}

#[test]
fn llm_check_with_nothing_configured_is_an_error() {
    let r = llm_providers_check(&LlmSetup { auth_issues: vec![], registration_issues: vec![], probes: vec![] });
    assert_eq!(r.status, CheckStatus::Error);
    assert_eq!(r.summary, "none configured");
    assert_eq!(r.remediation.as_deref(), Some("Set at least one provider API key"));
    assert!(r.details.is_empty());
}

#[test]
fn llm_check_passes_when_every_probe_answers() {
    let r = llm_providers_check(&LlmSetup {
        auth_issues: vec![],
        registration_issues: vec![],
        probes: vec![(s("openai"), ProbeOutcome::Answered), (s("anthropic"), ProbeOutcome::Answered)],
    });
    assert_eq!(r.status, CheckStatus::Pass);
    assert_eq!(r.summary, "2 configured");
    assert_eq!(r.details, vec![s("openai: OK"), s("anthropic: OK")]);
    assert_eq!(r.remediation, None);
}

#[test]
fn llm_check_reports_typed_remediation_on_probe_failure() {
    let r = llm_providers_check(&LlmSetup {
        auth_issues: vec![],
        registration_issues: vec![],
        probes: vec![(s("openai"), ProbeOutcome::Failed { rendered: s("Authentication error: invalid api key\nmore") })],
    });
    assert_eq!(r.status, CheckStatus::Error);
    assert_eq!(r.summary, "openai failed");
    let remediation = r.remediation.unwrap();
    assert!(remediation.starts_with("openai: "));
    assert_eq!(remediation, "openai: Authentication error: invalid api key");
    assert_eq!(r.details, vec![s("openai: Authentication error: invalid api key\nmore")]);
}

#[test]
fn llm_check_counts_every_kind_of_failure() {
    let r = llm_providers_check(&LlmSetup {
        auth_issues: vec![(s("gemini"), s("gemini: missing key"))],
        registration_issues: vec![(s("bedrock"), s("bad region"))],
        probes: vec![(s("openai"), ProbeOutcome::TimedOut), (s("xai"), ProbeOutcome::Answered)],
    });
    assert_eq!(r.summary, "3 providers failed");
    assert_eq!(r.details, vec![
        s("gemini: missing key"),
        s("bedrock: bad region"),
        s("openai: timeout (30s)"),
        s("xai: OK"),
    ]);
    assert_eq!(
        r.remediation.as_deref(),
        Some("gemini: gemini: missing key; bedrock: bad region; openai: timeout (30s)")
    );
    let init = llm_init_failure("boom: cause");
    assert_eq!(init.summary, "failed to initialize");
    assert_eq!(init.details, vec![s("boom: cause")]);
}

#[test]
fn github_token_lookup_and_probe() {
    assert_eq!(github_token_from_lookup(GithubTokenLookup::Pat(s("t"))), Ok(s("t")));
    let missing = github_token_from_lookup(GithubTokenLookup::NotConfigured).unwrap_err();
    assert_eq!(missing.status, CheckStatus::Warning);
    let failed = github_token_from_lookup(GithubTokenLookup::Failed(s("no vault"))).unwrap_err();
    assert_eq!((failed.summary.as_str(), failed.remediation.as_deref()), ("missing token", Some("no vault")));
    let expired = github_token_from_lookup(GithubTokenLookup::InstallationExpired(s("expired at 10"))).unwrap_err();
    assert_eq!(expired.summary, "token expired");

    let ok = github_token_probe_check(&HttpProbe::Responded { status: 200, status_text: s("200 OK") });
    assert_eq!((ok.status, ok.summary.as_str()), (CheckStatus::Pass, "configured"));
    let bad = github_token_probe_check(&HttpProbe::Responded { status: 401, status_text: s("401 Unauthorized") });
    assert_eq!(bad.summary, "token invalid");
    assert_eq!(bad.details, vec![s("GitHub returned 401 Unauthorized")]);
    let other = github_token_probe_check(&HttpProbe::Responded { status: 503, status_text: s("503") });
    assert_eq!(other.summary, "connectivity error");
    let slow = github_token_probe_check(&HttpProbe::TimedOut);
    assert_eq!(slow.details, vec![s("GitHub probe timed out")]);
}

#[test]
fn pem_values_may_be_base64() {
    assert_eq!(decode_pem_value("KEY", PEM), Ok(s(PEM)));
    assert_eq!(decode_pem_value("KEY", PEM_B64), Ok(s(PEM)));
    assert!(decode_pem_value("KEY", "not base64!").unwrap_err().starts_with("KEY is not valid PEM or base64: "));
    assert!(decode_pem_value("KEY", "//4=").unwrap_err().starts_with("KEY base64 decoded to invalid UTF-8: "));
}

fn app(app_id: Option<&str>, key: Option<&str>) -> GithubAppSettings {
    GithubAppSettings {
        app_id: app_id.map(s),
        slug: None,
        private_key: key.map(s),
        client_id: false,
        client_secret: false,
        webhook_secret: false,
    }
}

#[test]
fn github_app_settings_are_checked_in_order() {
    let none = github_app_credentials(&app(None, None)).unwrap_err();
    assert_eq!((none.status, none.summary.as_str()), (CheckStatus::Warning, "not configured"));
    let mut only_secret = app(None, None);
    only_secret.webhook_secret = true;
    assert_eq!(github_app_credentials(&only_secret).unwrap_err().summary, "missing app_id");
    assert_eq!(github_app_credentials(&app(Some("1"), None)).unwrap_err().summary, "missing private key");
    let bad = github_app_credentials(&app(Some("1"), Some("%%"))).unwrap_err();
    assert_eq!(bad.summary, "private key invalid");
    assert_eq!(bad.remediation.as_deref(), Some(bad.details[0].as_str()));
    assert_eq!(github_app_credentials(&app(Some("1"), Some(PEM_B64))), Ok((s("1"), s(PEM))));
    let jwt = github_app_jwt_failure("sign: bad key", "bad key");
    assert_eq!(jwt.summary, "JWT signing failed");
    let pass = github_app_probe_check(&AppProbe::Authenticated, Some(s("fabro-app")));
    assert_eq!((pass.status, pass.summary.as_str()), (CheckStatus::Pass, "fabro-app"));
    assert_eq!(github_app_probe_check(&AppProbe::Authenticated, None).summary, "configured");
    assert_eq!(github_app_probe_check(&AppProbe::TimedOut, None).summary, "timeout");
}

#[test]
fn sandbox_and_search_checks() {
    assert_eq!(sandbox_not_configured().status, CheckStatus::Warning);
    let ok = sandbox_check(&DaytonaKeyCheck::Valid { key_name: s("ci") });
    assert_eq!(ok.summary, "Daytona configured (ci)");
    let scopes = sandbox_check(&DaytonaKeyCheck::MissingScopes { missing: s("write"), required: s("read, write") });
    assert_eq!(scopes.details, vec![s("missing: write")]);
    assert_eq!(
        scopes.remediation.as_deref(),
        Some("Regenerate the Daytona API key with scopes: read, write, then `fabro secret set DAYTONA_API_KEY`.")
    );
    assert_eq!(brave_not_configured().summary, "optional, not configured");
    let http = brave_search_check(&HttpProbe::Responded { status: 429, status_text: s("429 Too Many Requests") });
    assert_eq!((http.status, http.summary.as_str()), (CheckStatus::Warning, "HTTP 429 Too Many Requests"));
    let err = brave_search_check(&HttpProbe::RequestFailed { error: s("dns") });
    assert_eq!(err.details, vec![s("dns")]);
    let client = http_client_failure("Web Search (Brave)", CheckStatus::Warning, "tls: init", "tls");
    assert_eq!(client.summary, "client error");
}

#[test]
fn check_storage_dir_path_passes_for_readable_writable_directory() {
    let r = storage_dir_check("/var/fabro", true, true, true);
    assert_eq!(r.name, "Storage directory");
    assert_eq!(r.status, CheckStatus::Pass);
    assert_eq!(r.details, vec![s("Exists: yes"), s("Readable: yes"), s("Writable: yes")]);
    assert_eq!(r.remediation, None);
}

#[test]
fn check_storage_dir_path_errors_for_missing_directory() {
    let r = storage_dir_check("/tmp/missing", false, false, false);
    assert_eq!(r.name, "Storage directory");
    assert_eq!(r.status, CheckStatus::Error);
    assert_eq!(r.remediation.as_deref(), Some("Create the directory: mkdir -p /tmp/missing"));
    let perms = storage_dir_check("/srv", true, true, false);
    assert_eq!(perms.remediation.as_deref(), Some("Fix permissions on /srv"));
}

#[test]
fn crypto_check_lists_every_problem() {
    let all_ok = crypto_check(&CryptoInputs {
        web_enabled: true,
        session_secret: Some(Ok(())),
        dev_token_method: true,
        dev_token_valid: Some(true),
        github_method: false,
        github_client_id: false,
        github_client_secret: false,
    });
    assert_eq!((all_ok.status, all_ok.summary.as_str()), (CheckStatus::Pass, "all configured auth material valid"));
    let bad = crypto_check(&CryptoInputs {
        web_enabled: true,
        session_secret: None,
        dev_token_method: true,
        dev_token_valid: Some(false),
        github_method: true,
        github_client_id: false,
        github_client_secret: true,
    });
    assert_eq!(bad.summary, "invalid keys found");
    assert_eq!(bad.details, vec![
        s("SESSION_SECRET not set"),
        s("FABRO_DEV_TOKEN has invalid format"),
        s("server.integrations.github.client_id is not configured"),
    ]);
    assert_eq!(
        bad.remediation.as_deref(),
        Some("SESSION_SECRET not set; FABRO_DEV_TOKEN has invalid format; server.integrations.github.client_id is not configured")
    );
}

#[test]
fn report_groups_credentials_then_configuration() {
    let c = |n: &str| CheckResult { name: s(n), status: CheckStatus::Pass, summary: s(""), details: vec![], remediation: None };
    let r = diagnostics_report(s("1.2.3"), c("a"), c("b"), c("c"), c("d"), c("e"), c("f"));
    assert_eq!(r.sections.len(), 2);
    assert_eq!(r.sections[0].title, "Credentials");
    let names: Vec<&str> = r.sections[0].checks.iter().map(|x| x.name.as_str()).collect();
    assert_eq!(names, vec!["a", "b", "c", "d"]);
    assert_eq!(r.sections[1].title, "Configuration");
    assert_eq!(r.sections[1].checks[1].name, "f");
}
