//! Where a run request came from: the client named by its User-Agent.

use vstd::prelude::*;
use crate::text::{char_is_ws, chars_of, find_char, is_ws, lemma_find_char, str_eq, string_from_range, trim_start};

verus! {

/// How many characters a sequence starts with before whitespace.
pub open spec fn non_ws_prefix_len(t: Seq<char>) -> int
    decreases t.len(),
{
    if t.len() == 0 || is_ws(t[0]) {
        0
    } else {
        1 + non_ws_prefix_len(t.drop_first())
    }
}

/// The first whitespace-separated word (`str::split_whitespace().next()`),
/// empty when there is none.
pub open spec fn first_word(s: Seq<char>) -> Seq<char> {
    let t = trim_start(s);
    t.take(non_ws_prefix_len(t))
}

/// The Fabro client a User-Agent word names: `fabro-cli/<version>` or
/// `fabro-web/<version>` (split at the first `/`, with a version).
pub open spec fn known_client(word: Seq<char>) -> Option<(Seq<char>, Seq<char>)> {
    let k = find_char(word, '/');
    if k < 0 {
        None
    } else {
        let name = word.take(k);
        let version = word.skip(k + 1);
        if version.len() > 0 && (name == "fabro-cli"@ || name == "fabro-web"@) {
            Some((name, version))
        } else {
            None
        }
    }
}

proof fn lemma_trim_start_skip(s: Seq<char>, a: int)
    requires
        0 <= a <= s.len(),
        forall|i: int| 0 <= i < a ==> is_ws(#[trigger] s[i]),
        a == s.len() || !is_ws(s[a]),
    ensures
        trim_start(s) == s.skip(a),
    decreases a,
{
    if a == 0 {
        assert(s.skip(0) =~= s);
    } else {
        let d = s.drop_first();
        assert forall|i: int| 0 <= i < a - 1 implies is_ws(#[trigger] d[i]) by {
            assert(d[i] == s[i + 1]);
        }
        if a < s.len() {
            assert(d[a - 1] == s[a]);
        }
        lemma_trim_start_skip(d, a - 1);
        assert(d.skip(a - 1) =~= s.skip(a));
    }
}

proof fn lemma_non_ws_prefix(t: Seq<char>, b: int)
    requires
        0 <= b <= t.len(),
        forall|i: int| 0 <= i < b ==> !is_ws(#[trigger] t[i]),
        b == t.len() || is_ws(t[b]),
    ensures
        non_ws_prefix_len(t) == b,
    decreases b,
{
    if b > 0 {
        let d = t.drop_first();
        assert forall|i: int| 0 <= i < b - 1 implies !is_ws(#[trigger] d[i]) by {
            assert(d[i] == t[i + 1]);
        }
        if b < t.len() {
            assert(d[b - 1] == t[b]);
        }
        lemma_non_ws_prefix(d, b - 1);
    }
}

/// The client name and version a User-Agent header announces, when its
/// first word names a Fabro client.
pub fn parse_known_fabro_user_agent(user_agent: &str) -> (r: Option<(String, String)>)
    ensures
        match known_client(first_word(user_agent@)) {
            Some((n, v)) => r matches Some(p) && p.0@ == n && p.1@ == v,
            None => r is None,
        },
{
    let v = chars_of(user_agent);
    let n = v.len();
    let mut a: usize = 0;
    while a < n && char_is_ws(v[a])
        invariant
            a <= n == v@.len(),
            forall|i: int| 0 <= i < a ==> is_ws(#[trigger] v@[i]),
        decreases n - a,
    {
        a = a + 1;
    }
    let mut b: usize = a;
    while b < n && !char_is_ws(v[b])
        invariant
            a <= b <= n == v@.len(),
            forall|i: int| a <= i < b ==> !is_ws(#[trigger] v@[i]),
        decreases n - b,
    {
        b = b + 1;
    }
    let ghost word = v@.subrange(a as int, b as int);
    proof {
        lemma_trim_start_skip(v@, a as int);
        let t = v@.skip(a as int);
        assert forall|i: int| 0 <= i < b - a implies !is_ws(#[trigger] t[i]) by {
            assert(t[i] == v@[a + i]);
        }
        if b < n {
            assert(t[b - a] == v@[b as int]);
        }
        lemma_non_ws_prefix(t, b - a);
        assert(t.take(b - a) =~= word);
        lemma_find_char(word, '/');
    }
    let mut k: usize = a;
    while k < b && v[k] != '/'
        invariant
            a <= k <= b <= n == v@.len(),
            forall|i: int| a <= i < k ==> v@[i] != '/',
        decreases b - k,
    {
        k = k + 1;
    }
    proof {
        if k < b {
            assert(word[k - a] == '/');
            assert forall|i: int| 0 <= i < k - a implies word[i] != '/' by {
                assert(word[i] == v@[a + i]);
            }
        } else {
            assert forall|i: int| 0 <= i < word.len() implies word[i] != '/' by {
                assert(word[i] == v@[a + i]);
            }
        }
    }
    if k == b {
        return None;
    }
    proof {
        assert(find_char(word, '/') == k - a);
    }
    if k + 1 == b {
        return None;
    }
    let name = string_from_range(&v, a, k);
    let version = string_from_range(&v, k + 1, b);
    proof {
        assert(name@ =~= word.take(k - a));
        assert(version@ =~= word.skip(k - a + 1));
    }
    if str_eq(name.as_str(), "fabro-cli") || str_eq(name.as_str(), "fabro-web") {
        Some((name, version))
    } else {
        None
    }
}

/// The client a run was submitted from: its User-Agent, and the Fabro
/// client name and version it announces, if any.
#[derive(Debug, Clone, PartialEq, Eq)]
pub struct RunClientProvenance {
    pub user_agent: Option<String>,
    pub name: Option<String>,
    pub version: Option<String>,
}

/// The client provenance of a request, from its User-Agent header (when it
/// has one that reads as text).
pub fn run_client_provenance(user_agent: Option<&str>) -> (r: Option<RunClientProvenance>)
    ensures
        user_agent is None ==> r is None,
        user_agent matches Some(ua) ==> (r matches Some(p) && p.user_agent matches Some(u) && u@ == ua@
            && match known_client(first_word(ua@)) {
            Some((n, v)) => (p.name matches Some(x) && x@ == n) && (p.version matches Some(y) && y@ == v),
            None => p.name is None && p.version is None,
        }),
{
    match user_agent {
        None => None,
        Some(ua) => {
            let (name, version) = match parse_known_fabro_user_agent(ua) {
                Some((n, v)) => (Some(n), Some(v)),
                None => (None, None),
            };
            Some(RunClientProvenance { user_agent: Some(ua.to_string()), name, version })
        },
    }
}

} // verus!
