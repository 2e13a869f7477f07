//! Checking out the repository of an automation target: the GitHub slug it
//! names, the URLs derived from it, the credentials handed to git, and the
//! git command plans that the materializer runs.

use vstd::prelude::*;
use crate::text::{
    chars_of, find_char, find_in_range, has_char, lemma_find_char, push_str, replace_all, replace_str,
    str_eq, string_from_chars, string_from_range, trim, trim_str, dec, format_dec, push_vec,
};
use vstd::utf8::encode_utf8;

verus! {

/// Why an automation target could not be turned into a run.
#[derive(Debug, Clone, PartialEq, Eq)]
pub enum AutomationRunMaterializeError {
    InvalidTarget(String),
    CloneFailed(String),
    WorkflowNotFound(String),
    Manifest(String),
}

impl AutomationRunMaterializeError {
    /// The display text of the error.
    pub open spec fn message(&self) -> Seq<char> {
        match self {
            AutomationRunMaterializeError::InvalidTarget(m) => "invalid automation target: "@ + m@,
            AutomationRunMaterializeError::CloneFailed(m) => "failed to clone automation repository: "@ + m@,
            AutomationRunMaterializeError::WorkflowNotFound(m) => "failed to resolve automation workflow: "@
                + m@,
            AutomationRunMaterializeError::Manifest(m) => "failed to build run manifest: "@ + m@,
        }
    }

    pub fn to_string(&self) -> (s: String)
        ensures
            s@ == self.message(),
    {
        let mut out: Vec<char> = Vec::new();
        match self {
            AutomationRunMaterializeError::InvalidTarget(m) => {
                push_str(&mut out, "invalid automation target: ");
                push_str(&mut out, m.as_str());
            },
            AutomationRunMaterializeError::CloneFailed(m) => {
                push_str(&mut out, "failed to clone automation repository: ");
                push_str(&mut out, m.as_str());
            },
            AutomationRunMaterializeError::WorkflowNotFound(m) => {
                push_str(&mut out, "failed to resolve automation workflow: ");
                push_str(&mut out, m.as_str());
            },
            AutomationRunMaterializeError::Manifest(m) => {
                push_str(&mut out, "failed to build run manifest: ");
                push_str(&mut out, m.as_str());
            },
        }
        string_from_chars(&out)
    }
}

/// An ASCII letter or digit.
pub open spec fn ascii_alnum(c: char) -> bool {
    ('0' <= c && c <= '9') || ('a' <= c && c <= 'z') || ('A' <= c && c <= 'Z')
}

fn is_ascii_alnum(c: char) -> (b: bool)
    ensures
        b == ascii_alnum(c),
{
    ('0' <= c && c <= '9') || ('a' <= c && c <= 'z') || ('A' <= c && c <= 'Z')
}

/// A GitHub owner: 1 to 39 ASCII letters, digits and hyphens, beginning and
/// ending with a letter or digit.
pub open spec fn github_owner_ok(s: Seq<char>) -> bool {
    &&& 0 < s.len() <= 39
    &&& ascii_alnum(s[0])
    &&& ascii_alnum(s.last())
    &&& forall|i: int| 0 <= i < s.len() ==> ascii_alnum(#[trigger] s[i]) || s[i] == '-'
}

/// A GitHub repository name: 1 to 100 ASCII letters, digits, dots,
/// underscores and hyphens, not starting with a dot (so neither `.` nor
/// `..`).
pub open spec fn github_repo_ok(s: Seq<char>) -> bool {
    &&& 0 < s.len() <= 100
    &&& s[0] != '.'
    &&& forall|i: int|
        0 <= i < s.len() ==> ascii_alnum(#[trigger] s[i]) || s[i] == '.' || s[i] == '_' || s[i] == '-'
}

/// Whether `v[lo..hi]` is a valid GitHub owner.
fn valid_github_owner(v: &Vec<char>, lo: usize, hi: usize) -> (b: bool)
    requires
        lo <= hi <= v.len(),
    ensures
        b == github_owner_ok(v@.subrange(lo as int, hi as int)),
{
    let ghost s = v@.subrange(lo as int, hi as int);
    if lo == hi || hi - lo > 39 {
        return false;
    }
    if !is_ascii_alnum(v[lo]) || !is_ascii_alnum(v[hi - 1]) {
        return false;
    }
    let mut i: usize = lo;
    while i < hi
        invariant
            lo <= i <= hi <= v.len(),
            s == v@.subrange(lo as int, hi as int),
            forall|j: int| 0 <= j < i - lo ==> ascii_alnum(#[trigger] s[j]) || s[j] == '-',
        decreases hi - i,
    {
        let c = v[i];
        if !(is_ascii_alnum(c) || c == '-') {
            assert(s[i - lo] == c);
            return false;
        }
        i = i + 1;
    }
    true
}

/// Whether `v[lo..hi]` is a valid GitHub repository name.
fn valid_github_repo(v: &Vec<char>, lo: usize, hi: usize) -> (b: bool)
    requires
        lo <= hi <= v.len(),
    ensures
        b == github_repo_ok(v@.subrange(lo as int, hi as int)),
{
    let ghost s = v@.subrange(lo as int, hi as int);
    if lo == hi || hi - lo > 100 {
        return false;
    }
    if v[lo] == '.' {
        return false;
    }
    let mut i: usize = lo;
    while i < hi
        invariant
            lo <= i <= hi <= v.len(),
            s == v@.subrange(lo as int, hi as int),
            forall|j: int|
                0 <= j < i - lo ==> ascii_alnum(#[trigger] s[j]) || s[j] == '.' || s[j] == '_' || s[j]
                    == '-',
        decreases hi - i,
    {
        let c = v[i];
        if !(is_ascii_alnum(c) || c == '.' || c == '_' || c == '-') {
            assert(s[i - lo] == c);
            return false;
        }
        i = i + 1;
    }
    true
}

/// A GitHub repository named by an automation target.
#[derive(Debug, Clone, PartialEq, Eq)]
pub struct GithubRepository {
    pub owner: String,
    pub name: String,
}

/// The owner and name of a valid `owner/repo` slug: split at the first `/`,
/// with no other `/`, each part valid.
pub open spec fn slug_parts(s: Seq<char>) -> Option<(Seq<char>, Seq<char>)> {
    let k = find_char(s, '/');
    if k < 0 {
        None
    } else {
        let owner = s.subrange(0, k);
        let repo = s.subrange(k + 1, s.len() as int);
        if !has_char(repo, '/') && github_owner_ok(owner) && github_repo_ok(repo) {
            Some((owner, repo))
        } else {
            None
        }
    }
}

/// A slug is valid exactly when it is a valid owner, a `/` and a valid
/// repository name, and then those are its parts.
pub proof fn law_slug_is_owner_slash_name(o: Seq<char>, r: Seq<char>, s: Seq<char>)
    ensures
        github_owner_ok(o) && github_repo_ok(r) ==> slug_parts(o + seq!['/'] + r) == Some((o, r)),
        slug_parts(s) matches Some(parts) ==> s == parts.0 + seq!['/'] + parts.1 && github_owner_ok(parts.0)
            && github_repo_ok(parts.1),
{
    if github_owner_ok(o) && github_repo_ok(r) {
        let t = o + seq!['/'] + r;
        lemma_find_char(t, '/');
        let k = find_char(t, '/');
        assert(t[o.len() as int] == '/');
        assert forall|j: int| 0 <= j < o.len() implies t[j] != '/' by {
            assert(t[j] == o[j]);
        }
        assert(k == o.len());
        assert(t.subrange(0, k) =~= o);
        assert(t.subrange(k + 1, t.len() as int) =~= r);
        assert(!has_char(r, '/')) by {
            if has_char(r, '/') {
                let i = choose|i: int| 0 <= i < r.len() && r[i] == '/';
                assert(ascii_alnum(r[i]) || r[i] == '.' || r[i] == '_' || r[i] == '-');
            }
        }
    }
    if slug_parts(s) is Some {
        lemma_find_char(s, '/');
        let k = find_char(s, '/');
        assert(s =~= s.subrange(0, k) + seq!['/'] + s.subrange(k + 1, s.len() as int));
    }
}

/// Parses a GitHub `owner/repo` slug.
pub fn parse_github_repository_slug(value: &str) -> (r: Result<GithubRepository, AutomationRunMaterializeError>)
    ensures
        slug_parts(value@) matches Some(parts) ==> (r matches Ok(repo) && repo.owner@ == parts.0
            && repo.name@ == parts.1),
        slug_parts(value@) is None ==> (r matches Err(AutomationRunMaterializeError::InvalidTarget(m))
            && m@ == "repository must be a GitHub owner/repo slug: "@ + value@),
{
    let v = chars_of(value);
    let n = v.len();
    proof {
        assert(v@.subrange(0, n as int) =~= v@);
        lemma_find_char(v@, '/');
    }
    let ok = match find_in_range(&v, 0, n, '/') {
        None => None,
        Some(k) => {
            let rest = find_in_range(&v, k + 1, n, '/');
            proof {
                let repo = v@.subrange(k + 1, n as int);
                lemma_find_char(repo, '/');
                if has_char(repo, '/') {
                    let j = choose|j: int| 0 <= j < repo.len() && repo[j] == '/';
                    assert(find_char(repo, '/') >= 0);
                }
            }
            if rest.is_none() && valid_github_owner(&v, 0, k) && valid_github_repo(&v, k + 1, n) {
                Some(GithubRepository {
                    owner: string_from_range(&v, 0, k),
                    name: string_from_range(&v, k + 1, n),
                })
            } else {
                None
            }
        },
    };
    match ok {
        Some(repo) => Ok(repo),
        None => {
            let mut msg: Vec<char> = Vec::new();
            push_str(&mut msg, "repository must be a GitHub owner/repo slug: ");
            push_str(&mut msg, value);
            Err(AutomationRunMaterializeError::InvalidTarget(string_from_chars(&msg)))
        },
    }
}

/// `https://github.com/<owner>/<name>.git`: the URL git clones, with no
/// credentials in it.
pub open spec fn clone_url_of(owner: Seq<char>, name: Seq<char>) -> Seq<char> {
    "https://github.com/"@ + owner + "/"@ + name + ".git"@
}

/// `https://github.com/<owner>/<name>`: the origin recorded with the run.
pub open spec fn metadata_url_of(owner: Seq<char>, name: Seq<char>) -> Seq<char> {
    "https://github.com/"@ + owner + "/"@ + name
}

pub fn github_clone_url(repo: &GithubRepository) -> (s: String)
    ensures
        s@ == clone_url_of(repo.owner@, repo.name@),
{
    let mut out: Vec<char> = Vec::new();
    push_str(&mut out, "https://github.com/");
    push_str(&mut out, repo.owner.as_str());
    push_str(&mut out, "/");
    push_str(&mut out, repo.name.as_str());
    push_str(&mut out, ".git");
    string_from_chars(&out)
}

pub fn github_metadata_url(repo: &GithubRepository) -> (s: String)
    ensures
        s@ == metadata_url_of(repo.owner@, repo.name@),
{
    let mut out: Vec<char> = Vec::new();
    push_str(&mut out, "https://github.com/");
    push_str(&mut out, repo.owner.as_str());
    push_str(&mut out, "/");
    push_str(&mut out, repo.name.as_str());
    string_from_chars(&out)
}

/// The digit of a 6-bit value in the standard base64 alphabet: `A`-`Z`,
/// `a`-`z`, `0`-`9`, then `+` and `/`.
pub open spec fn base64_digit(v: int) -> char {
    if v < 26 {
        (('A' as int) + v) as char
    } else if v < 52 {
        (('a' as int) + v - 26) as char
    } else if v < 62 {
        (('0' as int) + v - 52) as char
    } else if v == 62 {
        '+'
    } else {
        '/'
    }
}

/// The standard base64 text (RFC 4648 alphabet, `=` padding) of bytes:
/// each group of three bytes becomes four digits of six bits each, most
/// significant first, and a last group of one or two bytes is filled out
/// with zero bits and padded with `=` to four characters.
pub open spec fn base64_standard(b: Seq<u8>) -> Seq<char>
    decreases b.len(),
{
    if b.len() == 0 {
        Seq::empty()
    } else {
        let x = b[0] as int;
        let y = if b.len() > 1 { b[1] as int } else { 0 };
        let z = if b.len() > 2 { b[2] as int } else { 0 };
        let c0 = base64_digit(x / 4);
        let c1 = base64_digit((x % 4) * 16 + y / 16);
        let c2 = if b.len() > 1 { base64_digit((y % 16) * 4 + z / 64) } else { '=' };
        let c3 = if b.len() > 2 { base64_digit(z % 64) } else { '=' };
        if b.len() <= 3 {
            seq![c0, c1, c2, c3]
        } else {
            seq![c0, c1, c2, c3] + base64_standard(b.subrange(3, b.len() as int))
        }
    }
}

/// `base64::engine::general_purpose::STANDARD.encode` of bytes: their
/// standard base64 text, as `base64_standard` spells it out. The call cannot
/// panic: it sizes its buffer with checked arithmetic that only overflows
/// for inputs longer than memory can hold.
#[verifier::external_body]
pub(crate) fn base64_encode(bytes: &[u8]) -> (s: String)
    ensures
        s@ == base64_standard(bytes@),
{
    base64::Engine::encode(&base64::engine::general_purpose::STANDARD, bytes)
}

/// The user name git authenticates as: the given one, or `x-access-token`
/// when it is missing or empty.
pub open spec fn auth_username(username: Option<Seq<char>>) -> Seq<char> {
    match username {
        Some(u) => if u.len() > 0 { u } else { "x-access-token"@ },
        None => "x-access-token"@,
    }
}

/// `AUTHORIZATION: basic <encoded>`.
pub open spec fn basic_header_of(encoded: Seq<char>) -> Seq<char> {
    "AUTHORIZATION: basic "@ + encoded
}

/// The base64 of the UTF-8 text `<username>:<password>`.
pub open spec fn encoded_credentials_of(username: Seq<char>, password: Seq<char>) -> Seq<char> {
    base64_standard(encode_utf8(username + ":"@ + password))
}

/// The HTTP basic-auth header git sends for a user name and password.
pub fn basic_auth_header(username: &str, password: &str) -> (s: String)
    ensures
        s@ == basic_header_of(encoded_credentials_of(username@, password@)),
{
    let encoded = encode_credentials(username, password);
    basic_auth_header_from_encoded(encoded.as_str())
}

fn encode_credentials(username: &str, password: &str) -> (s: String)
    ensures
        s@ == encoded_credentials_of(username@, password@),
{
    let mut joined: Vec<char> = Vec::new();
    push_str(&mut joined, username);
    push_str(&mut joined, ":");
    push_str(&mut joined, password);
    let text = string_from_chars(&joined);
    base64_encode(text.as_str().as_bytes())
}

fn basic_auth_header_from_encoded(encoded: &str) -> (s: String)
    ensures
        s@ == basic_header_of(encoded@),
{
    let mut out: Vec<char> = Vec::new();
    push_str(&mut out, "AUTHORIZATION: basic ");
    push_str(&mut out, encoded);
    string_from_chars(&out)
}

/// Credentials for git over HTTPS: the header git sends, and the values
/// that must never show in output.
#[derive(Debug, Clone, PartialEq, Eq)]
pub struct GitAuthConfig {
    pub extraheader: Option<String>,
    pub sensitive_values: Vec<String>,
}

/// The characters of each string.
pub open spec fn strs(v: Seq<String>) -> Seq<Seq<char>> {
    v.map_values(|x: String| x@)
}

/// The characters of each pair of strings.
pub open spec fn str_pairs(v: Seq<(String, String)>) -> Seq<(Seq<char>, Seq<char>)> {
    v.map_values(|x: (String, String)| (x.0@, x.1@))
}

/// The view of an optional string.
pub open spec fn opt_str(o: Option<String>) -> Option<Seq<char>> {
    match o {
        Some(s) => Some(s@),
        None => None,
    }
}

/// The password, when it is given and not empty.
pub open spec fn usable_password(password: Option<Seq<char>>) -> Option<Seq<char>> {
    match password {
        Some(p) => if p.len() > 0 { Some(p) } else { None },
        None => None,
    }
}

impl GitAuthConfig {
    /// Credentials from an optional user name and password. Without a
    /// non-empty password there is nothing to send.
    pub fn new(username: Option<String>, password: Option<String>) -> (c: GitAuthConfig)
        ensures
            usable_password(opt_str(password)) is None ==> c.extraheader is None && c.sensitive_values@.len()
                == 0,
            usable_password(opt_str(password)) matches Some(p) ==> {
                let encoded = encoded_credentials_of(auth_username(opt_str(username)), p);
                &&& opt_str(c.extraheader) == Some(basic_header_of(encoded))
                &&& strs(c.sensitive_values@) == seq![p, encoded, basic_header_of(encoded)]
            },
    {
        let password = match password {
            Some(p) => if !p.as_str().is_empty() { p } else {
                return GitAuthConfig { extraheader: None, sensitive_values: Vec::new() };
            },
            None => {
                return GitAuthConfig { extraheader: None, sensitive_values: Vec::new() };
            },
        };
        let username = match username {
            Some(u) => if !u.as_str().is_empty() { u } else { "x-access-token".to_string() },
            None => "x-access-token".to_string(),
        };
        let encoded = encode_credentials(username.as_str(), password.as_str());
        let header = basic_auth_header_from_encoded(encoded.as_str());
        let mut sensitive: Vec<String> = Vec::new();
        sensitive.push(password);
        sensitive.push(encoded);
        sensitive.push(header.clone());
        proof {
            assert(strs(sensitive@) =~= seq![sensitive@[0]@, sensitive@[1]@, sensitive@[2]@]);
        }
        GitAuthConfig { extraheader: Some(header), sensitive_values: sensitive }
    }

    /// The environment that makes git send the header to `clone_url`, and
    /// only there.
    pub fn git_env(&self, clone_url: &str) -> (env: Vec<(String, String)>)
        ensures
            str_pairs(env@) == git_env_of(opt_str(self.extraheader), clone_url@),
    {
        match &self.extraheader {
            None => {
                let env: Vec<(String, String)> = Vec::new();
                assert(str_pairs(env@) =~= Seq::<(Seq<char>, Seq<char>)>::empty());
                env
            },
            Some(header) => {
                let mut key: Vec<char> = Vec::new();
                push_str(&mut key, "http.");
                push_str(&mut key, clone_url);
                push_str(&mut key, ".extraheader");
                let mut env: Vec<(String, String)> = Vec::new();
                env.push(("GIT_CONFIG_COUNT".to_string(), "1".to_string()));
                env.push(("GIT_CONFIG_KEY_0".to_string(), string_from_chars(&key)));
                env.push(("GIT_CONFIG_VALUE_0".to_string(), header.clone()));
                assert(str_pairs(env@) =~= git_env_of(opt_str(self.extraheader), clone_url@));
                env
            },
        }
    }

    /// The values to scrub from git's output.
    pub fn sensitive_values(&self) -> (v: &Vec<String>)
        ensures
            v@ == self.sensitive_values@,
    {
        &self.sensitive_values
    }
}

/// The git configuration entries that add the header for requests to
/// `clone_url`: none without a header.
pub open spec fn git_env_of(header: Option<Seq<char>>, clone_url: Seq<char>) -> Seq<(Seq<char>, Seq<char>)> {
    match header {
        None => Seq::empty(),
        Some(h) => seq![
            ("GIT_CONFIG_COUNT"@, "1"@),
            ("GIT_CONFIG_KEY_0"@, "http."@ + clone_url + ".extraheader"@),
            ("GIT_CONFIG_VALUE_0"@, h),
        ],
    }
}

/// Seconds git may take to clone.
pub const GIT_CLONE_TIMEOUT_SECS: u64 = 120;
/// Seconds git may take to fetch a ref.
pub const GIT_FETCH_TIMEOUT_SECS: u64 = 60;
/// Seconds git may take to check out.
pub const GIT_CHECKOUT_TIMEOUT_SECS: u64 = 30;
/// Seconds git may take to resolve `HEAD`.
pub const GIT_REV_PARSE_TIMEOUT_SECS: u64 = 10;

/// A git invocation: argv, environment, working directory and time limit,
/// with the values its output must not reveal.
#[derive(Debug, Clone, PartialEq, Eq)]
pub struct GitCommandPlan {
    pub program: String,
    pub args: Vec<String>,
    pub env: Vec<(String, String)>,
    pub current_dir: Option<String>,
    pub timeout_secs: u64,
    pub sensitive_values: Vec<String>,
}

/// The environment every plan starts with: git never prompts.
pub open spec fn base_env() -> Seq<(Seq<char>, Seq<char>)> {
    seq![("GIT_TERMINAL_PROMPT"@, "0"@)]
}

/// The value of the first entry named `name`.
pub open spec fn env_lookup(env: Seq<(Seq<char>, Seq<char>)>, name: Seq<char>) -> Option<Seq<char>>
    decreases env.len(),
{
    if env.len() == 0 {
        None
    } else if env[0].0 == name {
        Some(env[0].1)
    } else {
        env_lookup(env.drop_first(), name)
    }
}

/// The environment entries and scrubbed values that credentials add.
pub open spec fn auth_env(auth: Option<GitAuthConfig>, clone_url: Seq<char>) -> Seq<(Seq<char>, Seq<char>)> {
    match auth {
        Some(a) => git_env_of(opt_str(a.extraheader), clone_url),
        None => Seq::empty(),
    }
}

pub open spec fn auth_sensitive(auth: Option<GitAuthConfig>) -> Seq<Seq<char>> {
    match auth {
        Some(a) => strs(a.sensitive_values@),
        None => Seq::empty(),
    }
}

fn to_strings(words: &[&str]) -> (v: Vec<String>)
    ensures
        strs(v@) == words@.map_values(|w: &str| w@),
{
    let mut v: Vec<String> = Vec::new();
    let mut i: usize = 0;
    while i < words.len()
        invariant
            i <= words@.len(),
            v@.len() == i,
            forall|k: int| 0 <= k < i ==> (#[trigger] v@[k])@ == words@[k]@,
        decreases words.len() - i,
    {
        v.push(words[i].to_string());
        i = i + 1;
    }
    assert(strs(v@) =~= words@.map_values(|w: &str| w@));
    v
}

impl GitCommandPlan {
    /// A `git` invocation with these arguments, never prompting.
    pub fn new(args: Vec<String>, timeout_secs: u64) -> (p: GitCommandPlan)
        ensures
            p.program@ == "git"@,
            p.args@ == args@,
            str_pairs(p.env@) == base_env(),
            p.current_dir is None,
            p.timeout_secs == timeout_secs,
            p.sensitive_values@.len() == 0,
    {
        let mut env: Vec<(String, String)> = Vec::new();
        env.push(("GIT_TERMINAL_PROMPT".to_string(), "0".to_string()));
        assert(str_pairs(env@) =~= base_env());
        GitCommandPlan {
            program: "git".to_string(),
            args,
            env,
            current_dir: None,
            timeout_secs,
            sensitive_values: Vec::new(),
        }
    }

    /// The same plan, run in `dir`.
    pub fn current_dir(self, dir: String) -> (p: GitCommandPlan)
        ensures
            p == (GitCommandPlan { current_dir: Some(dir), ..self }),
    {
        GitCommandPlan { current_dir: Some(dir), ..self }
    }

    /// The same plan with the credentials, if any, for requests to
    /// `clone_url`: their environment appended, and their values to scrub.
    pub fn with_auth(self, clone_url: &str, auth: Option<&GitAuthConfig>) -> (p: GitCommandPlan)
        ensures
            p.program == self.program,
            p.args == self.args,
            p.current_dir == self.current_dir,
            p.timeout_secs == self.timeout_secs,
            str_pairs(p.env@) == str_pairs(self.env@) + auth_env(
                match auth {
                    Some(a) => Some(*a),
                    None => None,
                },
                clone_url@,
            ),
            strs(p.sensitive_values@) == strs(self.sensitive_values@) + auth_sensitive(
                match auth {
                    Some(a) => Some(*a),
                    None => None,
                },
            ),
    {
        let mut plan = self;
        match auth {
            Some(a) => {
                let extra = a.git_env(clone_url);
                let ghost env0 = plan.env@;
                let mut i: usize = 0;
                while i < extra.len()
                    invariant
                        i <= extra@.len(),
                        plan.program == self.program,
                        plan.args == self.args,
                        plan.current_dir == self.current_dir,
                        plan.timeout_secs == self.timeout_secs,
                        plan.sensitive_values == self.sensitive_values,
                        plan.env@.len() == env0.len() + i,
                        forall|k: int| 0 <= k < env0.len() ==> #[trigger] plan.env@[k] == env0[k],
                        forall|k: int|
                            0 <= k < i ==> (#[trigger] plan.env@[env0.len() + k]).0@ == extra@[k].0@
                                && plan.env@[env0.len() + k].1@ == extra@[k].1@,
                    decreases extra.len() - i,
                {
                    plan.env.push((extra[i].0.clone(), extra[i].1.clone()));
                    i = i + 1;
                }
                assert(str_pairs(plan.env@) =~= str_pairs(env0) + str_pairs(extra@)) by {
                    assert forall|k: int| 0 <= k < plan.env@.len() implies #[trigger] str_pairs(plan.env@)[k] == (
                    str_pairs(env0) + str_pairs(extra@))[k] by {
                        if k >= env0.len() {
                            assert(plan.env@[env0.len() + (k - env0.len())] == plan.env@[k]);
                        }
                    }
                }
                let values = a.sensitive_values();
                let ghost sv0 = plan.sensitive_values@;
                let ghost env1 = plan.env;
                let mut j: usize = 0;
                while j < values.len()
                    invariant
                        j <= values@.len(),
                        values@ == a.sensitive_values@,
                        plan.program == self.program,
                        plan.args == self.args,
                        plan.current_dir == self.current_dir,
                        plan.timeout_secs == self.timeout_secs,
                        plan.env == env1,
                        plan.sensitive_values@.len() == sv0.len() + j,
                        forall|k: int| 0 <= k < sv0.len() ==> #[trigger] plan.sensitive_values@[k] == sv0[k],
                        forall|k: int|
                            0 <= k < j ==> (#[trigger] plan.sensitive_values@[sv0.len() + k])@ == values@[k]@,
                    decreases values.len() - j,
                {
                    plan.sensitive_values.push(values[j].clone());
                    j = j + 1;
                }
                assert(strs(plan.sensitive_values@) =~= strs(sv0) + strs(values@)) by {
                    assert forall|k: int| 0 <= k < plan.sensitive_values@.len() implies #[trigger] strs(
                        plan.sensitive_values@,
                    )[k] == (strs(sv0) + strs(values@))[k] by {
                        if k >= sv0.len() {
                            assert(plan.sensitive_values@[sv0.len() + (k - sv0.len())] == plan.sensitive_values@[k]);
                        }
                    }
                }
            },
            None => {
                assert(str_pairs(plan.env@) =~= str_pairs(plan.env@) + Seq::<(Seq<char>, Seq<char>)>::empty());
                assert(strs(plan.sensitive_values@) =~= strs(plan.sensitive_values@) + Seq::<Seq<char>>::empty());
            },
        }
        plan
    }

    /// The value of the first environment entry named `name`.
    pub fn env_value(&self, name: &str) -> (r: Option<&str>)
        ensures
            match env_lookup(str_pairs(self.env@), name@) {
                Some(v) => r matches Some(x) && x@ == v,
                None => r is None,
            },
    {
        let mut i: usize = 0;
        assert(str_pairs(self.env@).subrange(0, self.env@.len() as int) =~= str_pairs(self.env@));
        while i < self.env.len()
            invariant
                i <= self.env@.len(),
                env_lookup(str_pairs(self.env@), name@) == env_lookup(
                    str_pairs(self.env@).subrange(i as int, self.env@.len() as int),
                    name@,
                ),
            decreases self.env.len() - i,
        {
            let ghost rest = str_pairs(self.env@).subrange(i as int, self.env@.len() as int);
            assert(rest[0] == (self.env@[i as int].0@, self.env@[i as int].1@));
            if str_eq(self.env[i].0.as_str(), name) {
                return Some(self.env[i].1.as_str());
            }
            assert(rest.drop_first() =~= str_pairs(self.env@).subrange(i + 1, self.env@.len() as int));
            i = i + 1;
        }
        None
    }
}

/// `git clone --depth 1 --no-checkout <url> <dir>`, with credentials for
/// the URL if any.
pub fn build_clone_plan(clone_url: &str, checkout_dir: &str, auth: Option<&GitAuthConfig>) -> (p: GitCommandPlan)
    ensures
        p.program@ == "git"@,
        strs(p.args@) == seq!["clone"@, "--depth"@, "1"@, "--no-checkout"@, clone_url@, checkout_dir@],
        str_pairs(p.env@) == base_env() + auth_env(
            match auth {
                Some(a) => Some(*a),
                None => None,
            },
            clone_url@,
        ),
        p.current_dir is None,
        p.timeout_secs == GIT_CLONE_TIMEOUT_SECS,
        strs(p.sensitive_values@) == auth_sensitive(
            match auth {
                Some(a) => Some(*a),
                None => None,
            },
        ),
{
    let args = to_strings(&["clone", "--depth", "1", "--no-checkout", clone_url, checkout_dir]);
    proof {
        assert(strs(args@) =~= seq!["clone"@, "--depth"@, "1"@, "--no-checkout"@, clone_url@, checkout_dir@]);
    }
    let p = GitCommandPlan::new(args, GIT_CLONE_TIMEOUT_SECS).with_auth(clone_url, auth);
    assert(strs(p.sensitive_values@) =~= Seq::<Seq<char>>::empty() + auth_sensitive(
        match auth {
            Some(a) => Some(*a),
            None => None,
        },
    ));
    p
}

/// `git fetch --depth 1 origin -- <ref>` in the checkout, with credentials
/// for the URL if any.
pub fn build_fetch_ref_plan(
    clone_url: &str,
    checkout_dir: &str,
    ref_selector: &str,
    auth: Option<&GitAuthConfig>,
) -> (p: GitCommandPlan)
    ensures
        p.program@ == "git"@,
        strs(p.args@) == seq!["fetch"@, "--depth"@, "1"@, "origin"@, "--"@, ref_selector@],
        str_pairs(p.env@) == base_env() + auth_env(
            match auth {
                Some(a) => Some(*a),
                None => None,
            },
            clone_url@,
        ),
        opt_str(p.current_dir) == Some(checkout_dir@),
        p.timeout_secs == GIT_FETCH_TIMEOUT_SECS,
        strs(p.sensitive_values@) == auth_sensitive(
            match auth {
                Some(a) => Some(*a),
                None => None,
            },
        ),
{
    let args = to_strings(&["fetch", "--depth", "1", "origin", "--", ref_selector]);
    proof {
        assert(strs(args@) =~= seq!["fetch"@, "--depth"@, "1"@, "origin"@, "--"@, ref_selector@]);
    }
    let p = GitCommandPlan::new(args, GIT_FETCH_TIMEOUT_SECS).current_dir(checkout_dir.to_string()).with_auth(
        clone_url,
        auth,
    );
    assert(strs(p.sensitive_values@) =~= Seq::<Seq<char>>::empty() + auth_sensitive(
        match auth {
            Some(a) => Some(*a),
            None => None,
        },
    ));
    p
}

/// `git checkout --force --detach FETCH_HEAD` in the checkout.
pub fn build_checkout_ref_plan(checkout_dir: &str) -> (p: GitCommandPlan)
    ensures
        p.program@ == "git"@,
        strs(p.args@) == seq!["checkout"@, "--force"@, "--detach"@, "FETCH_HEAD"@],
        str_pairs(p.env@) == base_env(),
        opt_str(p.current_dir) == Some(checkout_dir@),
        p.timeout_secs == GIT_CHECKOUT_TIMEOUT_SECS,
        p.sensitive_values@.len() == 0,
{
    let args = to_strings(&["checkout", "--force", "--detach", "FETCH_HEAD"]);
    proof {
        assert(strs(args@) =~= seq!["checkout"@, "--force"@, "--detach"@, "FETCH_HEAD"@]);
    }
    GitCommandPlan::new(args, GIT_CHECKOUT_TIMEOUT_SECS).current_dir(checkout_dir.to_string())
}

/// `git rev-parse HEAD` in the checkout.
pub fn build_rev_parse_head_plan(checkout_dir: &str) -> (p: GitCommandPlan)
    ensures
        p.program@ == "git"@,
        strs(p.args@) == seq!["rev-parse"@, "HEAD"@],
        str_pairs(p.env@) == base_env(),
        opt_str(p.current_dir) == Some(checkout_dir@),
        p.timeout_secs == GIT_REV_PARSE_TIMEOUT_SECS,
        p.sensitive_values@.len() == 0,
{
    let args = to_strings(&["rev-parse", "HEAD"]);
    proof {
        assert(strs(args@) =~= seq!["rev-parse"@, "HEAD"@]);
    }
    GitCommandPlan::new(args, GIT_REV_PARSE_TIMEOUT_SECS).current_dir(checkout_dir.to_string())
}

/// Words joined by single spaces.
pub open spec fn join_words(words: Seq<Seq<char>>) -> Seq<char>
    decreases words.len(),
{
    if words.len() == 0 {
        Seq::empty()
    } else if words.len() == 1 {
        words[0]
    } else {
        join_words(words.drop_last()) + " "@ + words.last()
    }
}

/// The program followed by its arguments, separated by spaces.
pub open spec fn command_label(program: Seq<char>, args: Seq<Seq<char>>) -> Seq<char> {
    if args.len() == 0 {
        program
    } else {
        program + " "@ + join_words(args)
    }
}

/// How a plan is named in messages: its program and argv. Credentials never
/// appear in argv, so the label is safe to show.
pub fn safe_command_label(plan: &GitCommandPlan) -> (s: String)
    ensures
        s@ == command_label(plan.program@, strs(plan.args@)),
{
    let mut out: Vec<char> = Vec::new();
    push_str(&mut out, plan.program.as_str());
    if plan.args.len() == 0 {
        return string_from_chars(&out);
    }
    push_str(&mut out, " ");
    let ghost prefix = out@;
    let mut i: usize = 0;
    while i < plan.args.len()
        invariant
            i <= plan.args@.len(),
            out@ == prefix + join_words(strs(plan.args@).take(i as int)),
        decreases plan.args.len() - i,
    {
        let ghost before = out@;
        if i > 0 {
            push_str(&mut out, " ");
        }
        push_str(&mut out, plan.args[i].as_str());
        proof {
            let w = strs(plan.args@);
            assert(w.take(i + 1).drop_last() =~= w.take(i as int));
            assert(w.take(i + 1).last() == plan.args@[i as int]@);
            if i == 0 {
                assert(w.take(1) =~= seq![plan.args@[0]@]);
            }
            assert(out@ =~= prefix + join_words(w.take(i + 1)));
        }
        i = i + 1;
    }
    proof {
        assert(strs(plan.args@).take(plan.args@.len() as int) =~= strs(plan.args@));
    }
    string_from_chars(&out)
}

/// Every non-empty sensitive value, in order, replaced by `REDACTED`.
pub open spec fn redact_values(text: Seq<char>, values: Seq<Seq<char>>) -> Seq<char>
    decreases values.len(),
{
    if values.len() == 0 {
        text
    } else {
        let r = redact_values(text, values.drop_last());
        if values.last().len() == 0 {
            r
        } else {
            replace_all(r, values.last(), "REDACTED"@)
        }
    }
}

/// Scrubs git output of the given secrets.
pub fn redact_git_output(text: &str, sensitive_values: &[String]) -> (s: String)
    ensures
        s@ == redact_values(text@, strs(sensitive_values@)),
{
    let mut redacted = text.to_string();
    let mut i: usize = 0;
    while i < sensitive_values.len()
        invariant
            i <= sensitive_values@.len(),
            redacted@ == redact_values(text@, strs(sensitive_values@).take(i as int)),
        decreases sensitive_values.len() - i,
    {
        let value = sensitive_values[i].as_str();
        proof {
            let w = strs(sensitive_values@);
            assert(w.take(i + 1).drop_last() =~= w.take(i as int));
            assert(w.take(i + 1).last() == value@);
        }
        if !value.is_empty() {
            redacted = replace_str(redacted.as_str(), value, "REDACTED");
        }
        i = i + 1;
    }
    proof {
        assert(strs(sensitive_values@).take(sensitive_values@.len() as int) =~= strs(sensitive_values@));
    }
    redacted
}

/// What became of a git invocation, as the process runner saw it.
#[derive(Debug, Clone, PartialEq, Eq)]
pub enum GitRunOutput {
    /// The time limit passed first.
    TimedOut,
    /// The process could not be started.
    SpawnFailed { error: String },
    /// The process finished: whether it succeeded, its exit status as text,
    /// its raw standard output, and both outputs decoded as text.
    Finished { success: bool, status: String, stdout: Vec<u8>, stdout_text: String, stderr_text: String },
}

/// `: <trimmed stderr>`, else `: <trimmed stdout>`, else nothing.
pub open spec fn failure_detail(stdout: Seq<char>, stderr: Seq<char>) -> Seq<char> {
    if trim(stderr).len() > 0 {
        ": "@ + trim(stderr)
    } else if trim(stdout).len() > 0 {
        ": "@ + trim(stdout)
    } else {
        Seq::empty()
    }
}

/// The message of a failed git invocation.
pub open spec fn git_failure_message(plan: GitCommandPlan, output: GitRunOutput) -> Seq<char> {
    let label = command_label(plan.program@, strs(plan.args@));
    match output {
        GitRunOutput::TimedOut => label + " timed out after "@ + dec(plan.timeout_secs as nat) + "s"@,
        GitRunOutput::SpawnFailed { error } => "failed to run "@ + label + ": "@ + error@,
        GitRunOutput::Finished { status, stdout_text, stderr_text, .. } => redact_values(
            label + " exited with status "@ + status@ + failure_detail(stdout_text@, stderr_text@),
            strs(plan.sensitive_values@),
        ),
    }
}

/// The result of running a plan: its standard output when git succeeded,
/// else a clone failure that names the command and, for a failed exit, what
/// git printed, with the plan's secrets scrubbed.
pub fn git_run_outcome(plan: &GitCommandPlan, output: GitRunOutput) -> (r: Result<Vec<u8>, AutomationRunMaterializeError>)
    ensures
        output matches GitRunOutput::Finished { success: true, stdout, .. } ==> (r matches Ok(v) && v@
            == stdout@),
        !(output matches GitRunOutput::Finished { success: true, .. }) ==> (r matches Err(
            AutomationRunMaterializeError::CloneFailed(m),
        ) && m@ == git_failure_message(*plan, output)),
{
    let label = safe_command_label(plan);
    let mut msg: Vec<char> = Vec::new();
    match output {
        GitRunOutput::TimedOut => {
            push_str(&mut msg, label.as_str());
            push_str(&mut msg, " timed out after ");
            let secs = format_dec(plan.timeout_secs);
            push_vec(&mut msg, &secs);
            push_str(&mut msg, "s");
            assert(msg@ =~= label@ + " timed out after "@ + dec(plan.timeout_secs as nat) + "s"@);
            Err(AutomationRunMaterializeError::CloneFailed(string_from_chars(&msg)))
        },
        GitRunOutput::SpawnFailed { error } => {
            push_str(&mut msg, "failed to run ");
            push_str(&mut msg, label.as_str());
            push_str(&mut msg, ": ");
            push_str(&mut msg, error.as_str());
            Err(AutomationRunMaterializeError::CloneFailed(string_from_chars(&msg)))
        },
        GitRunOutput::Finished { success, status, stdout, stdout_text, stderr_text } => {
            if success {
                return Ok(stdout);
            }
            push_str(&mut msg, label.as_str());
            push_str(&mut msg, " exited with status ");
            push_str(&mut msg, status.as_str());
            let err_trimmed = trim_str(stderr_text.as_str());
            let out_trimmed = trim_str(stdout_text.as_str());
            if !err_trimmed.as_str().is_empty() {
                push_str(&mut msg, ": ");
                push_str(&mut msg, err_trimmed.as_str());
            } else if !out_trimmed.as_str().is_empty() {
                push_str(&mut msg, ": ");
                push_str(&mut msg, out_trimmed.as_str());
            }
            assert(msg@ =~= label@ + " exited with status "@ + status@ + failure_detail(stdout_text@, stderr_text@));
            let message = string_from_chars(&msg);
            let redacted = redact_git_output(message.as_str(), plan.sensitive_values.as_slice());
            Err(AutomationRunMaterializeError::CloneFailed(redacted))
        },
    }
}

} // verus!
