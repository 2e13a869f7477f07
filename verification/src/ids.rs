//! Identifiers: ULID-based run, session and turn ids, content-addressed
//! blob ids and stage ids.

use vstd::prelude::*;
use crate::text::{chars_of, dec, format_dec, str_eq, string_from_chars};
use sha2::Digest;

verus! {

/// What `ulid::Ulid::from_string` decodes a string to (`None` on error).
pub uninterp spec fn ulid_decode(s: Seq<char>) -> Option<u128>;

/// What `ulid::Ulid::to_string` encodes a value to.
pub uninterp spec fn ulid_encode(v: u128) -> Seq<char>;

/// SHA-256 digest of a byte string, as `sha2::Sha256::digest` computes it.
pub uninterp spec fn sha256(data: Seq<u8>) -> Seq<u8>;

/// A character of the Crockford base-32 alphabet that ULIDs are written in.
pub open spec fn is_crockford(c: char) -> bool {
    ('0' <= c && c <= '9') || ('A' <= c && c <= 'Z' && c != 'I' && c != 'L' && c != 'O' && c
        != 'U')
}

/// Calls `ulid::Ulid::from_string`. The source shows that it rejects every
/// string that is not exactly 26 bytes long, so a decoded string has 26
/// characters; which strings decode, and to what, is left to the name.
#[verifier::external_body]
fn ulid_from_str(s: &str) -> (r: Option<u128>)
    ensures
        r == ulid_decode(s@),
        r is Some ==> s@.len() == 26,
{
    ulid::Ulid::from_string(s).ok().map(|u| u.0)
}

/// Calls `ulid::Ulid::to_string`, which writes 26 characters of the
/// Crockford alphabet (`base32::encode_to_array`), five bits each from the
/// low end, so `Ulid::from_string` (`base32::decode`) reads the value back;
/// the digits themselves are left to the name.
#[verifier::external_body]
fn ulid_to_string(v: u128) -> (s: String)
    ensures
        s@ == ulid_encode(v),
        ulid_decode(s@) == Some(v),
        s@.len() == 26,
        forall|i: int| 0 <= i < s@.len() ==> is_crockford(#[trigger] s@[i]),
{
    ulid::Ulid(v).to_string()
}

/// Calls `ulid::Ulid::new`, which reads the clock and a random number
/// generator; nothing is promised of the value.
#[verifier::external_body]
fn ulid_generate() -> (v: u128) {
    ulid::Ulid::new().0
}

/// Calls `sha2::Sha256::digest`, whose output is 32 bytes.
#[verifier::external_body]
fn sha256_digest(data: &[u8]) -> (r: [u8; 32])
    ensures
        r@ == sha256(data@),
{
    sha2::Sha256::digest(data).into()
}

/// A string that is not a valid identifier of the kind asked for.
#[derive(Debug, Clone, PartialEq, Eq)]
pub struct IdParseError {
    pub input: String,
}

/// Identifier of a workflow run (a ULID).
#[derive(Debug, Clone, Copy, PartialEq, Eq, Structural)]
pub struct RunId {
    value: u128,
}

/// Identifier of an agent session (a ULID).
#[derive(Debug, Clone, Copy, PartialEq, Eq, Structural)]
pub struct SessionId {
    value: u128,
}

/// Identifier of a turn within a session (a ULID).
#[derive(Debug, Clone, Copy, PartialEq, Eq, Structural)]
pub struct TurnId {
    value: u128,
}

/// Millisecond timestamp that a ULID value carries in its top 48 bits.
pub open spec fn ulid_timestamp_ms(v: u128) -> int {
    v as int / 0x1_0000_0000_0000_0000_0000
}

impl RunId {
    pub closed spec fn value(self) -> u128 {
        self.value
    }

    /// A fresh id: the current time and random bits.
    pub fn new() -> (r: RunId) {
        RunId { value: ulid_generate() }
    }

    /// Run ids are equal exactly when their values are.
    pub proof fn lemma_eq_value(a: RunId, b: RunId)
        ensures
            (a == b) == (a.value() == b.value()),
    {
    }

    /// The canonical text of the id.
    pub open spec fn text(self) -> Seq<char> {
        ulid_encode(self.value())
    }

    pub fn from_u128(value: u128) -> (r: RunId)
        ensures
            r.value() == value,
    {
        RunId { value }
    }

    pub fn as_u128(&self) -> (v: u128)
        ensures
            v == self.value(),
    {
        self.value
    }

    /// Parses the canonical ULID text of a run id.
    pub fn parse(s: &str) -> (r: Result<RunId, IdParseError>)
        ensures
            ulid_decode(s@) matches Some(v) ==> r matches Ok(id) && id.value() == v,
            ulid_decode(s@) is None ==> r is Err,
    {
        match ulid_from_str(s) {
            Some(value) => Ok(RunId { value }),
            None => Err(IdParseError { input: s.to_string() }),
        }
    }

    /// The canonical 26-character ULID text.
    pub fn to_string(&self) -> (s: String)
        ensures
            s@ == ulid_encode(self.value()),
            ulid_decode(s@) == Some(self.value()),
            s@.len() == 26,
            forall|i: int| 0 <= i < s@.len() ==> is_crockford(#[trigger] s@[i]),
    {
        ulid_to_string(self.value)
    }

    /// Creation time in Unix milliseconds, from the ULID's timestamp bits.
    pub fn created_at_ms(&self) -> (ms: u64)
        ensures
            ms == ulid_timestamp_ms(self.value()),
    {
        (self.value / 0x1_0000_0000_0000_0000_0000u128) as u64
    }
}

impl SessionId {
    pub closed spec fn value(self) -> u128 {
        self.value
    }

    /// A fresh id: the current time and random bits.
    pub fn new() -> (r: SessionId) {
        SessionId { value: ulid_generate() }
    }

    pub fn from_u128(value: u128) -> (r: SessionId)
        ensures
            r.value() == value,
    {
        SessionId { value }
    }

    pub fn as_u128(&self) -> (v: u128)
        ensures
            v == self.value(),
    {
        self.value
    }

    /// Parses the canonical ULID text of a session id.
    pub fn parse(s: &str) -> (r: Result<SessionId, IdParseError>)
        ensures
            ulid_decode(s@) matches Some(v) ==> r matches Ok(id) && id.value() == v,
            ulid_decode(s@) is None ==> r is Err,
    {
        match ulid_from_str(s) {
            Some(value) => Ok(SessionId { value }),
            None => Err(IdParseError { input: s.to_string() }),
        }
    }

    pub fn to_string(&self) -> (s: String)
        ensures
            s@ == ulid_encode(self.value()),
            ulid_decode(s@) == Some(self.value()),
    {
        ulid_to_string(self.value)
    }
}

impl TurnId {
    pub closed spec fn value(self) -> u128 {
        self.value
    }

    /// A fresh id: the current time and random bits.
    pub fn new() -> (r: TurnId) {
        TurnId { value: ulid_generate() }
    }

    pub fn from_u128(value: u128) -> (r: TurnId)
        ensures
            r.value() == value,
    {
        TurnId { value }
    }

    pub fn as_u128(&self) -> (v: u128)
        ensures
            v == self.value(),
    {
        self.value
    }

    /// Parses the canonical ULID text of a turn id.
    pub fn parse(s: &str) -> (r: Result<TurnId, IdParseError>)
        ensures
            ulid_decode(s@) matches Some(v) ==> r matches Ok(id) && id.value() == v,
            ulid_decode(s@) is None ==> r is Err,
    {
        match ulid_from_str(s) {
            Some(value) => Ok(TurnId { value }),
            None => Err(IdParseError { input: s.to_string() }),
        }
    }

    pub fn to_string(&self) -> (s: String)
        ensures
            s@ == ulid_encode(self.value()),
            ulid_decode(s@) == Some(self.value()),
    {
        ulid_to_string(self.value)
    }
}

impl std::str::FromStr for RunId {
    type Err = IdParseError;

    fn from_str(s: &str) -> (r: Result<RunId, IdParseError>)
        ensures
            ulid_decode(s@) matches Some(v) ==> r matches Ok(id) && id.value() == v,
            ulid_decode(s@) is None ==> r is Err,
    {
        RunId::parse(s)
    }
}

impl std::str::FromStr for SessionId {
    type Err = IdParseError;

    fn from_str(s: &str) -> (r: Result<SessionId, IdParseError>)
        ensures
            ulid_decode(s@) matches Some(v) ==> r matches Ok(id) && id.value() == v,
            ulid_decode(s@) is None ==> r is Err,
    {
        SessionId::parse(s)
    }
}

impl std::str::FromStr for TurnId {
    type Err = IdParseError;

    fn from_str(s: &str) -> (r: Result<TurnId, IdParseError>)
        ensures
            ulid_decode(s@) matches Some(v) ==> r matches Ok(id) && id.value() == v,
            ulid_decode(s@) is None ==> r is Err,
    {
        TurnId::parse(s)
    }
}

/// Content address of a stored run blob: the SHA-256 digest of its bytes.
#[derive(Debug, Clone, Copy, PartialEq, Eq)]
pub struct RunBlobId {
    digest: [u8; 32],
}

/// The lowercase hexadecimal digit of a value below sixteen.
pub open spec fn hex_char(d: int) -> char {
    if d < 10 {
        ('0' as int + d) as char
    } else {
        ('a' as int + d - 10) as char
    }
}

/// The value of a lowercase hexadecimal digit, or -1.
pub open spec fn hex_value(c: char) -> int {
    if '0' <= c && c <= '9' {
        c as int - '0' as int
    } else if 'a' <= c && c <= 'f' {
        c as int - 'a' as int + 10
    } else {
        -1
    }
}

/// Lowercase hexadecimal text of a byte string, two digits per byte.
pub open spec fn hex_of(bytes: Seq<u8>) -> Seq<char> {
    Seq::new(
        2 * bytes.len(),
        |i: int|
            if i % 2 == 0 {
                hex_char(bytes[i / 2] as int / 16)
            } else {
                hex_char(bytes[i / 2] as int % 16)
            },
    )
}

/// The bytes written by 64 lowercase hexadecimal digits, if `s` is such.
pub open spec fn hex_decode32(s: Seq<char>) -> Option<Seq<u8>> {
    if s.len() == 64 && forall|i: int| 0 <= i < 64 ==> hex_value(#[trigger] s[i]) >= 0 {
        Some(Seq::new(32, |k: int| (hex_value(s[2 * k]) * 16 + hex_value(s[2 * k + 1])) as u8))
    } else {
        None
    }
}

pub(crate) fn hex_digit(d: u8) -> (c: char)
    requires
        d < 16,
    ensures
        c == hex_char(d as int),
        hex_value(c) == d,
{
    if d < 10 {
        ((d + 48u8) as char)
    } else {
        ((d - 10 + 97u8) as char)
    }
}

fn hex_digit_value(c: char) -> (r: Option<u8>)
    ensures
        hex_value(c) >= 0 ==> r == Some(hex_value(c) as u8),
        hex_value(c) < 0 ==> r is None,
{
    if '0' <= c && c <= '9' {
        Some((c as u32 - 48) as u8)
    } else if 'a' <= c && c <= 'f' {
        Some((c as u32 - 97 + 10) as u8)
    } else {
        None
    }
}

impl RunBlobId {
    pub closed spec fn digest(self) -> Seq<u8> {
        self.digest@
    }

    /// A digest is 32 bytes long.
    pub proof fn lemma_digest_len(self)
        ensures
            self.digest().len() == 32,
    {
    }

    /// The blob id of some content: its SHA-256 digest.
    pub fn new(data: &[u8]) -> (r: RunBlobId)
        ensures
            r.digest() == sha256(data@),
    {
        RunBlobId { digest: sha256_digest(data) }
    }

    pub fn from_digest(digest: [u8; 32]) -> (r: RunBlobId)
        ensures
            r.digest() == digest@,
    {
        RunBlobId { digest }
    }

    /// 64 lowercase hexadecimal digits.
    pub fn to_string(&self) -> (s: String)
        ensures
            s@ == hex_of(self.digest()),
    {
        let mut v: Vec<char> = Vec::new();
        let mut i: usize = 0;
        while i < 32
            invariant
                i <= 32,
                self.digest@.len() == 32,
                v@.len() == 2 * i,
                forall|j: int| 0 <= j < 2 * i ==> #[trigger] v@[j] == hex_of(self.digest@)[j],
            decreases 32 - i,
        {
            let b = self.digest[i];
            v.push(hex_digit(b / 16));
            v.push(hex_digit(b % 16));
            i = i + 1;
        }
        assert(v@ =~= hex_of(self.digest@));
        string_from_chars(&v)
    }

    /// Parses 64 lowercase hexadecimal digits.
    pub fn parse(s: &str) -> (r: Result<RunBlobId, IdParseError>)
        ensures
            hex_decode32(s@) matches Some(d) ==> r matches Ok(id) && id.digest() == d,
            hex_decode32(s@) is None ==> r is Err,
    {
        let v = chars_of(s);
        if v.len() != 64 {
            return Err(IdParseError { input: s.to_string() });
        }
        let mut digest: [u8; 32] = [0u8; 32];
        let mut k: usize = 0;
        while k < 32
            invariant
                k <= 32,
                v@ == s@,
                v@.len() == 64,
                digest@.len() == 32,
                forall|j: int| 0 <= j < 2 * k ==> hex_value(#[trigger] v@[j]) >= 0,
                forall|j: int| 0 <= j < k ==> #[trigger] digest@[j] == (hex_value(v@[2 * j]) * 16
                    + hex_value(v@[2 * j + 1])) as u8,
            decreases 32 - k,
        {
            let hi = hex_digit_value(v[2 * k]);
            let lo = hex_digit_value(v[2 * k + 1]);
            match (hi, lo) {
                (Some(h), Some(l)) => {
                    digest.set(k, h * 16 + l);
                },
                _ => {
                    proof {
                        if hex_value(v@[2 * k as int]) < 0 {
                            assert(!(hex_value(s@[2 * k as int]) >= 0));
                        } else {
                            assert(!(hex_value(s@[2 * k + 1]) >= 0));
                        }
                    }
                    return Err(IdParseError { input: s.to_string() });
                },
            }
            k = k + 1;
        }
        let r = RunBlobId { digest };
        assert(digest@ =~= Seq::new(
            32,
            |j: int| (hex_value(s@[2 * j]) * 16 + hex_value(s@[2 * j + 1])) as u8,
        ));
        Ok(r)
    }
}

/// Identifies one visit of a workflow node: the node id and the visit
/// number (starting at 1).
#[derive(Debug, Clone, PartialEq, Eq)]
pub struct StageId {
    pub node_id: String,
    pub visit: u32,
}

impl StageId {
    pub fn new(node_id: &str, visit: u32) -> (r: StageId)
        ensures
            r.node_id@ == node_id@,
            r.visit == visit,
    {
        StageId { node_id: node_id.to_string(), visit }
    }

    pub fn node_id(&self) -> (r: &str)
        ensures
            r@ == self.node_id@,
    {
        self.node_id.as_str()
    }

    pub fn visit(&self) -> (r: u32)
        ensures
            r == self.visit,
    {
        self.visit
    }

    /// `node@visit`.
    pub fn to_string(&self) -> (s: String)
        ensures
            s@ == self.node_id@ + seq!['@'] + dec(self.visit as nat),
    {
        let mut v = chars_of(self.node_id.as_str());
        v.push('@');
        let d = format_dec(self.visit as u64);
        let ghost before = v@;
        let mut k: usize = 0;
        while k < d.len()
            invariant
                k <= d.len(),
                v@ == before + d@.take(k as int),
            decreases d.len() - k,
        {
            v.push(d[k]);
            k = k + 1;
            assert(v@ =~= before + d@.take(k as int));
        }
        assert(d@.take(d.len() as int) =~= d@);
        string_from_chars(&v)
    }
}

/// Lexicographic order on character sequences (the order `str` compares by,
/// since UTF-8 preserves code-point order).
pub open spec fn seq_lt(a: Seq<char>, b: Seq<char>) -> bool
    decreases a.len(),
{
    if a.len() == 0 {
        b.len() > 0
    } else if b.len() == 0 {
        false
    } else if a[0] != b[0] {
        a[0] < b[0]
    } else {
        seq_lt(a.drop_first(), b.drop_first())
    }
}

/// Stage ids order by node id, then visit.
pub open spec fn stage_id_lt(a: StageId, b: StageId) -> bool {
    seq_lt(a.node_id@, b.node_id@) || (a.node_id@ == b.node_id@ && a.visit < b.visit)
}

/// Lexicographic comparison of two strings.
pub fn str_lt(a: &str, b: &str) -> (r: bool)
    ensures
        r == seq_lt(a@, b@),
{
    let va = chars_of(a);
    let vb = chars_of(b);
    let mut i: usize = 0;
    assert(a@.skip(0) =~= a@);
    assert(b@.skip(0) =~= b@);
    while i < va.len() && i < vb.len() && va[i] == vb[i]
        invariant
            i <= va.len(),
            i <= vb.len(),
            va@ == a@,
            vb@ == b@,
            seq_lt(a@, b@) == seq_lt(a@.skip(i as int), b@.skip(i as int)),
        decreases va.len() - i,
    {
        proof {
            let x = a@.skip(i as int);
            let y = b@.skip(i as int);
            assert(x.drop_first() =~= a@.skip(i + 1));
            assert(y.drop_first() =~= b@.skip(i + 1));
        }
        i = i + 1;
    }
    if i == va.len() {
        i < vb.len()
    } else if i == vb.len() {
        false
    } else {
        va[i] < vb[i]
    }
}

/// Whether stage `a` orders before stage `b`.
pub fn stage_id_less(a: &StageId, b: &StageId) -> (r: bool)
    ensures
        r == stage_id_lt(*a, *b),
{
    if str_lt(a.node_id.as_str(), b.node_id.as_str()) {
        true
    } else if str_eq(a.node_id.as_str(), b.node_id.as_str()) {
        a.visit < b.visit
    } else {
        false
    }
}

} // verus!
