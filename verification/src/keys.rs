//! Keys of the run store: NUL-separated segment paths, their builders and
//! the parsers that read them back.

use vstd::prelude::*;
use crate::ids::{RunBlobId, RunId, hex_decode32, hex_of, hex_char, hex_value, is_crockford};
use crate::text::{
    chars_of, dec, dec_int, find_char, find_in_range, format_dec_i64, format_dec_padded,
    has_char, join_char, lemma_dec_digits, lemma_find_char, lemma_parse_zero_padded,
    lemma_split_join, parse_u32, parse_u32_range, range_eq_str, split_char, split_vec,
    string_from_chars, zero_pad, is_digit,
};

verus! {

/// The separator between key segments.
pub open spec fn sep() -> char {
    '\0'
}

/// A store key: segments joined by NUL.
#[derive(Debug, Clone, PartialEq, Eq)]
pub struct SlateKey {
    raw: String,
}

impl View for SlateKey {
    type V = Seq<char>;

    closed spec fn view(&self) -> Seq<char> {
        self.raw@
    }
}

/// `"\0"` as a string.
fn sep_str() -> (s: &'static str)
    ensures
        s@ == seq![sep()],
{
    proof {
        reveal_strlit("\0");
    }
    "\0"
}

impl SlateKey {
    /// A key of one segment.
    pub fn new(segment: &str) -> (k: SlateKey)
        ensures
            k@ == segment@,
    {
        SlateKey { raw: segment.to_string() }
    }

    /// The key with one more segment.
    pub fn with(self, segment: &str) -> (k: SlateKey)
        ensures
            k@ == self@.push(sep()) + segment@,
    {
        let mut raw = self.raw;
        raw.append(sep_str());
        raw.append(segment);
        SlateKey { raw }
    }

    /// The key turned into a prefix: a trailing separator, so that it only
    /// matches keys below it.
    pub fn into_prefix(self) -> (k: SlateKey)
        ensures
            k@ == self@.push(sep()),
    {
        let mut raw = self.raw;
        raw.append(sep_str());
        SlateKey { raw }
    }

    pub fn as_str(&self) -> (s: &str)
        ensures
            s@ == self@,
    {
        self.raw.as_str()
    }

    /// The key's UTF-8 bytes.
    pub fn as_bytes(&self) -> (b: &[u8])
        ensures
            b@ == vstd::utf8::encode_utf8(self@),
    {
        self.raw.as_str().as_bytes()
    }

    /// The segments of a raw key (`str::split` on the separator).
    pub fn segments(raw: &str) -> (parts: Vec<String>)
        ensures
            parts@.len() == split_char(raw@, sep()).len(),
            forall|i: int| 0 <= i < parts@.len() ==> #[trigger] parts@[i]@ == split_char(
                raw@,
                sep(),
            )[i],
    {
        let v = chars_of(raw);
        let pieces = split_vec(&v, '\0');
        let mut out: Vec<String> = Vec::new();
        let mut i: usize = 0;
        while i < pieces.len()
            invariant
                i <= pieces.len(),
                v@ == raw@,
                pieces@.len() == split_char(raw@, sep()).len(),
                forall|j: int| 0 <= j < pieces@.len() ==> #[trigger] pieces@[j]@ == split_char(
                    raw@,
                    sep(),
                )[j],
                out@.len() == i,
                forall|j: int| 0 <= j < i ==> #[trigger] out@[j]@ == split_char(raw@, sep())[j],
            decreases pieces.len() - i,
        {
            out.push(string_from_chars(&pieces[i]));
            i = i + 1;
        }
        out
    }
}

// ---------------------------------------------------------------------------
// Key shapes

/// The leaf segment of an event key: the sequence number zero-padded to six
/// digits, a dash, and the event time in Unix milliseconds.
pub open spec fn event_leaf(seq: u32, epoch_ms: i64) -> Seq<char> {
    zero_pad(dec(seq as nat), 6) + seq!['-'] + dec_int(epoch_ms as int)
}

/// `runs/<run>/` (with the separator in place of `/`).
pub open spec fn run_data_prefix_key(run: Seq<char>) -> Seq<char> {
    join_char(seq!["runs"@, run], sep()).push(sep())
}

/// `runs/<run>/events/`.
pub open spec fn run_events_prefix_key(run: Seq<char>) -> Seq<char> {
    join_char(seq!["runs"@, run, "events"@], sep()).push(sep())
}

/// `runs/<run>/events/<seq>-<ms>`.
pub open spec fn run_event_key_of(run: Seq<char>, seq: u32, epoch_ms: i64) -> Seq<char> {
    join_char(seq!["runs"@, run, "events"@, event_leaf(seq, epoch_ms)], sep())
}

/// `runs/<run>/events/<seq>-`.
pub open spec fn run_event_seq_prefix_key(run: Seq<char>, seq: u32) -> Seq<char> {
    join_char(seq!["runs"@, run, "events"@, zero_pad(dec(seq as nat), 6) + seq!['-']], sep())
}

/// `blobs/sha256/`.
pub open spec fn blobs_prefix_key() -> Seq<char> {
    join_char(seq!["blobs"@, "sha256"@], sep()).push(sep())
}

/// `blobs/sha256/<hex digest>`.
pub open spec fn blob_key_of(digest: Seq<u8>) -> Seq<char> {
    join_char(seq!["blobs"@, "sha256"@, hex_of(digest)], sep())
}

/// The sequence number an event key carries: the digits before the first
/// dash of the fourth segment, when the third segment is `events`.
pub open spec fn event_seq_of(key: Seq<char>) -> Option<u32> {
    let segs = split_char(key, sep());
    if segs.len() < 4 || segs[2] != "events"@ {
        None
    } else {
        let k = find_char(segs[3], '-');
        if k < 0 {
            None
        } else {
            parse_u32(segs[3].take(k))
        }
    }
}

/// The digest a blob key names: exactly three segments `blobs`, `sha256`
/// and 64 lowercase hexadecimal digits.
pub open spec fn blob_digest_of(key: Seq<char>) -> Option<Seq<u8>> {
    let segs = split_char(key, sep());
    if segs[0] != "blobs"@ || segs.len() < 2 || segs[1] != "sha256"@ || segs.len() != 3 {
        None
    } else {
        hex_decode32(segs[2])
    }
}

// ---------------------------------------------------------------------------
// Builders

pub fn run_data_prefix(run_id: &RunId) -> (k: SlateKey)
    ensures
        k@ == run_data_prefix_key(run_id.text()),
{
    let id = run_id.to_string();
    let k = SlateKey::new("runs").with(id.as_str()).into_prefix();
    proof {
        reveal_with_fuel(join_char, 3);
    }
    k
}

pub fn run_events_prefix(run_id: &RunId) -> (k: SlateKey)
    ensures
        k@ == run_events_prefix_key(run_id.text()),
{
    let id = run_id.to_string();
    let k = SlateKey::new("runs").with(id.as_str()).with("events").into_prefix();
    proof {
        reveal_with_fuel(join_char, 4);
        assert(seq!["runs"@, id@, "events"@].drop_last() =~= seq!["runs"@, id@]);
    }
    k
}

/// The characters of an event key's leaf segment.
fn event_leaf_string(seq: u32, epoch_ms: i64) -> (s: String)
    ensures
        s@ == event_leaf(seq, epoch_ms),
{
    let mut v = format_dec_padded(seq as u64, 6);
    v.push('-');
    let m = format_dec_i64(epoch_ms);
    let ghost before = v@;
    let mut k: usize = 0;
    while k < m.len()
        invariant
            k <= m.len(),
            v@ == before + m@.take(k as int),
        decreases m.len() - k,
    {
        v.push(m[k]);
        k = k + 1;
        assert(v@ =~= before + m@.take(k as int));
    }
    assert(m@.take(m.len() as int) =~= m@);
    string_from_chars(&v)
}

pub fn run_event_key(run_id: &RunId, seq: u32, epoch_ms: i64) -> (k: SlateKey)
    ensures
        k@ == run_event_key_of(run_id.text(), seq, epoch_ms),
        event_seq_of(k@) == Some(seq),
{
    let id = run_id.to_string();
    let leaf = event_leaf_string(seq, epoch_ms);
    let k = SlateKey::new("runs").with(id.as_str()).with("events").with(leaf.as_str());
    proof {
        reveal_with_fuel(join_char, 5);
        let parts = seq!["runs"@, id@, "events"@, leaf@];
        assert(parts.drop_last() =~= seq!["runs"@, id@, "events"@]);
        assert(parts.drop_last().drop_last() =~= seq!["runs"@, id@]);
        lemma_crockford_no_sep(id@);
        law_event_key_round_trip(id@, seq, epoch_ms);
    }
    k
}

pub fn run_event_seq_prefix(run_id: &RunId, seq: u32) -> (k: SlateKey)
    ensures
        k@ == run_event_seq_prefix_key(run_id.text(), seq),
{
    let id = run_id.to_string();
    let mut v = format_dec_padded(seq as u64, 6);
    v.push('-');
    let leaf = string_from_chars(&v);
    let k = SlateKey::new("runs").with(id.as_str()).with("events").with(leaf.as_str());
    proof {
        reveal_with_fuel(join_char, 5);
        let parts = seq!["runs"@, id@, "events"@, leaf@];
        assert(parts.drop_last() =~= seq!["runs"@, id@, "events"@]);
        assert(parts.drop_last().drop_last() =~= seq!["runs"@, id@]);
    }
    k
}

pub fn blobs_prefix() -> (k: SlateKey)
    ensures
        k@ == blobs_prefix_key(),
{
    let k = SlateKey::new("blobs").with("sha256").into_prefix();
    proof {
        reveal_with_fuel(join_char, 3);
    }
    k
}

/// The key under which a blob is stored.
pub fn blob_key(blob_id: &RunBlobId) -> (k: SlateKey)
    ensures
        k@ == blob_key_of(blob_id.digest()),
        blob_digest_of(k@) == Some(blob_id.digest()),
{
    let hex = blob_id.to_string();
    let k = SlateKey::new("blobs").with("sha256").with(hex.as_str());
    proof {
        reveal_with_fuel(join_char, 4);
        let parts = seq!["blobs"@, "sha256"@, hex@];
        assert(parts.drop_last() =~= seq!["blobs"@, "sha256"@]);
        blob_id.lemma_digest_len();
        law_blob_key_round_trip(blob_id.digest());
    }
    k
}

// ---------------------------------------------------------------------------
// Parsers

/// The sequence number of an event key.
pub fn parse_event_seq(key: &str) -> (r: Option<u32>)
    ensures
        r == event_seq_of(key@),
{
    let v = chars_of(key);
    let segs = split_vec(&v, '\0');
    if segs.len() < 4 {
        return None;
    }
    let third = &segs[2];
    if !range_eq_str(third, 0, third.len(), "events") {
        assert(third@.subrange(0, third@.len() as int) =~= third@);
        return None;
    }
    assert(third@.subrange(0, third@.len() as int) =~= third@);
    let leaf = &segs[3];
    match find_in_range(leaf, 0, leaf.len(), '-') {
        None => {
            assert(leaf@.subrange(0, leaf@.len() as int) =~= leaf@);
            None
        },
        Some(k) => {
            assert(leaf@.subrange(0, leaf@.len() as int) =~= leaf@);
            assert(leaf@.subrange(0, k as int) =~= leaf@.take(k as int));
            parse_u32_range(leaf, 0, k)
        },
    }
}

/// The blob id named by a blob key.
pub fn parse_blob_id(key: &str) -> (r: Option<RunBlobId>)
    ensures
        blob_digest_of(key@) matches Some(d) ==> r matches Some(id) && id.digest() == d,
        blob_digest_of(key@) is None ==> r is None,
{
    let v = chars_of(key);
    let segs = split_vec(&v, '\0');
    proof {
        crate::text::lemma_split_len(key@, sep());
    }
    let first = &segs[0];
    if !range_eq_str(first, 0, first.len(), "blobs") {
        assert(first@.subrange(0, first@.len() as int) =~= first@);
        return None;
    }
    assert(first@.subrange(0, first@.len() as int) =~= first@);
    if segs.len() < 2 {
        return None;
    }
    let second = &segs[1];
    if !range_eq_str(second, 0, second.len(), "sha256") {
        assert(second@.subrange(0, second@.len() as int) =~= second@);
        return None;
    }
    assert(second@.subrange(0, second@.len() as int) =~= second@);
    if segs.len() != 3 {
        return None;
    }
    let id_text = string_from_chars(&segs[2]);
    match RunBlobId::parse(id_text.as_str()) {
        Ok(id) => Some(id),
        Err(_) => None,
    }
}

// ---------------------------------------------------------------------------
// Laws

proof fn lemma_literals_have_no_sep()
    ensures
        !has_char("runs"@, sep()),
        !has_char("events"@, sep()),
        !has_char("blobs"@, sep()),
        !has_char("sha256"@, sep()),
{
    reveal_strlit("runs");
    reveal_strlit("events");
    reveal_strlit("blobs");
    reveal_strlit("sha256");
}

proof fn lemma_first_at(s: Seq<char>, c: char, k: int)
    requires
        0 <= k < s.len(),
        s[k] == c,
        forall|j: int| 0 <= j < k ==> s[j] != c,
    ensures
        find_char(s, c) == k,
{
    lemma_find_char(s, c);
}

proof fn lemma_event_leaf_shape(seq: u32, epoch_ms: i64)
    ensures
        !has_char(event_leaf(seq, epoch_ms), sep()),
        find_char(event_leaf(seq, epoch_ms), '-') == zero_pad(dec(seq as nat), 6).len(),
        event_leaf(seq, epoch_ms).take(zero_pad(dec(seq as nat), 6).len() as int) == zero_pad(
            dec(seq as nat),
            6,
        ),
{
    lemma_dec_digits(seq as nat);
    let n = if epoch_ms < 0 { (-(epoch_ms as int)) as nat } else { epoch_ms as nat };
    lemma_dec_digits(n);
    let p = zero_pad(dec(seq as nat), 6);
    let leaf = event_leaf(seq, epoch_ms);
    let d = dec(seq as nat);
    assert forall|i: int| 0 <= i < p.len() implies is_digit(#[trigger] p[i]) by {
        if d.len() < 6 && i >= 6 - d.len() {
            assert(p[i] == d[i - (6 - d.len())]);
        }
    }
    let m = dec_int(epoch_ms as int);
    assert forall|i: int| 0 <= i < m.len() implies #[trigger] m[i] == '-' || is_digit(m[i]) by {
        if epoch_ms < 0 && i > 0 {
            assert(m[i] == dec(n)[i - 1]);
        }
    }
    assert forall|i: int| 0 <= i < leaf.len() implies #[trigger] leaf[i] != sep() by {
        if i < p.len() {
            assert(leaf[i] == p[i]);
        } else if i > p.len() {
            assert(leaf[i] == m[i - p.len() - 1]);
        }
    }
    assert forall|j: int| 0 <= j < p.len() implies #[trigger] leaf[j] != '-' by {
        assert(leaf[j] == p[j]);
    }
    lemma_first_at(leaf, '-', p.len() as int);
    assert(leaf.take(p.len() as int) =~= p);
}

/// Splitting an event key on the separator gives back its four segments.
proof fn lemma_event_key_segments(run: Seq<char>, seq: u32, epoch_ms: i64)
    requires
        !has_char(run, sep()),
    ensures
        split_char(run_event_key_of(run, seq, epoch_ms), sep()) == seq![
            "runs"@,
            run,
            "events"@,
            event_leaf(seq, epoch_ms),
        ],
{
    lemma_literals_have_no_sep();
    lemma_event_leaf_shape(seq, epoch_ms);
    let parts = seq!["runs"@, run, "events"@, event_leaf(seq, epoch_ms)];
    assert forall|i: int| 0 <= i < parts.len() implies !has_char(#[trigger] parts[i], sep()) by {
        if i == 0 {
        } else if i == 1 {
        } else if i == 2 {
        } else {
        }
    }
    lemma_split_join(parts, sep());
}

/// An event key reads back the sequence number it was built with, whatever
/// run segment (free of separators) and timestamp it carries.
pub proof fn law_event_key_round_trip(run: Seq<char>, seq: u32, epoch_ms: i64)
    requires
        !has_char(run, sep()),
    ensures
        event_seq_of(run_event_key_of(run, seq, epoch_ms)) == Some(seq),
{
    lemma_event_key_segments(run, seq, epoch_ms);
    lemma_event_leaf_shape(seq, epoch_ms);
    lemma_parse_zero_padded(seq, 6);
    let segs = split_char(run_event_key_of(run, seq, epoch_ms), sep());
    let leaf = event_leaf(seq, epoch_ms);
    assert(segs.len() == 4);
    assert(segs[2] == "events"@);
    assert(segs[3] == leaf);
    let k = find_char(leaf, '-');
    assert(leaf.take(k) == zero_pad(dec(seq as nat), 6));
}

/// The text of a run id never holds the separator.
pub proof fn lemma_crockford_no_sep(s: Seq<char>)
    requires
        forall|i: int| 0 <= i < s.len() ==> is_crockford(#[trigger] s[i]),
    ensures
        !has_char(s, sep()),
{
    if has_char(s, sep()) {
        let i = choose|i: int| 0 <= i < s.len() && s[i] == sep();
        assert(is_crockford(s[i]));
    }
}

proof fn lemma_join_prefix(parts: Seq<Seq<char>>, c: char)
    requires
        parts.len() >= 2,
    ensures
        join_char(parts.drop_last(), c).push(c).is_prefix_of(join_char(parts, c)),
{
    let a = join_char(parts.drop_last(), c).push(c);
    assert(join_char(parts, c) == a + parts.last());
    assert forall|i: int| 0 <= i < a.len() implies #[trigger] a[i] == join_char(parts, c)[i] by {
    }
}

/// Every event key of a run lies below the run's data prefix, its events
/// prefix, and the prefix of its own sequence number.
pub proof fn law_event_key_prefixes(run: Seq<char>, seq: u32, epoch_ms: i64)
    ensures
        run_data_prefix_key(run).is_prefix_of(run_event_key_of(run, seq, epoch_ms)),
        run_events_prefix_key(run).is_prefix_of(run_event_key_of(run, seq, epoch_ms)),
        run_event_seq_prefix_key(run, seq).is_prefix_of(run_event_key_of(run, seq, epoch_ms)),
{
    let leaf = event_leaf(seq, epoch_ms);
    let pad = zero_pad(dec(seq as nat), 6) + seq!['-'];
    let full = seq!["runs"@, run, "events"@, leaf];
    let three = seq!["runs"@, run, "events"@];
    let two = seq!["runs"@, run];
    assert(full.drop_last() =~= three);
    assert(three.drop_last() =~= two);
    lemma_join_prefix(full, sep());
    lemma_join_prefix(three, sep());
    let j3 = join_char(three, sep());
    let j2 = join_char(two, sep());
    let key = run_event_key_of(run, seq, epoch_ms);
    assert(key == j3.push(sep()) + leaf);
    assert(j3 == j2.push(sep()) + "events"@);
    assert(run_data_prefix_key(run) == j2.push(sep()));
    assert forall|i: int| 0 <= i < j2.len() + 1 implies #[trigger] j2.push(sep())[i] == key[i] by {
        assert(j2.push(sep())[i] == j3[i]);
        assert(j3[i] == j3.push(sep())[i]);
    }
    let sp = seq!["runs"@, run, "events"@, pad];
    assert(sp.drop_last() =~= three);
    let spk = run_event_seq_prefix_key(run, seq);
    assert(spk == j3.push(sep()) + pad);
    assert(leaf == pad + dec_int(epoch_ms as int));
    assert forall|i: int| 0 <= i < spk.len() implies #[trigger] spk[i] == key[i] by {
        if i >= j3.len() + 1 {
            assert(spk[i] == pad[i - j3.len() - 1]);
            assert(key[i] == leaf[i - j3.len() - 1]);
        }
    }
}

proof fn lemma_hex_digit_round_trip(d: int)
    requires
        0 <= d < 16,
    ensures
        hex_value(hex_char(d)) == d,
{
}

/// Hex text decodes back to the bytes it was written from.
pub proof fn lemma_hex_round_trip(bytes: Seq<u8>)
    requires
        bytes.len() == 32,
    ensures
        hex_decode32(hex_of(bytes)) == Some(bytes),
{
    let h = hex_of(bytes);
    assert forall|i: int| 0 <= i < 64 implies hex_value(#[trigger] h[i]) >= 0 by {
        lemma_hex_digit_round_trip(bytes[i / 2] as int / 16);
        lemma_hex_digit_round_trip(bytes[i / 2] as int % 16);
    }
    let back = Seq::new(32, |k: int| (hex_value(h[2 * k]) * 16 + hex_value(h[2 * k + 1])) as u8);
    assert forall|k: int| 0 <= k < 32 implies #[trigger] back[k] == bytes[k] by {
        let b = bytes[k] as int;
        lemma_hex_digit_round_trip(b / 16);
        lemma_hex_digit_round_trip(b % 16);
        assert((2 * k) / 2 == k);
        assert((2 * k + 1) / 2 == k);
        assert((2 * k) % 2 == 0);
        assert((2 * k + 1) % 2 == 1);
        assert((b / 16) * 16 + b % 16 == b);
    }
    assert(back =~= bytes);
}

proof fn lemma_hex_no_sep(digest: Seq<u8>)
    ensures
        !has_char(hex_of(digest), sep()),
{
    let h = hex_of(digest);
    if has_char(h, sep()) {
        let i = choose|i: int| 0 <= i < h.len() && h[i] == sep();
        lemma_hex_digit_round_trip(digest[i / 2] as int / 16);
        lemma_hex_digit_round_trip(digest[i / 2] as int % 16);
        assert(hex_value(h[i]) >= 0);
    }
}

/// A blob key reads back the digest it was built with.
pub proof fn law_blob_key_round_trip(digest: Seq<u8>)
    requires
        digest.len() == 32,
    ensures
        blob_digest_of(blob_key_of(digest)) == Some(digest),
{
    lemma_literals_have_no_sep();
    lemma_hex_no_sep(digest);
    let h = hex_of(digest);
    let parts = seq!["blobs"@, "sha256"@, h];
    assert(parts[0] == "blobs"@);
    assert(parts[1] == "sha256"@);
    assert(parts[2] == h);
    lemma_split_join(parts, sep());
    lemma_hex_round_trip(digest);
}

} // verus!
