//! Character-sequence helpers shared by the parsers and formatters:
//! splitting, trimming, decimal numerals and string assembly.

use vstd::prelude::*;

verus! {

/// The characters of a string, in order.
pub fn chars_of(s: &str) -> (v: Vec<char>)
    ensures
        v@ == s@,
{
    let mut v: Vec<char> = Vec::new();
    for c in it: s.chars()
        invariant
            v@ == it.seq().take(it.index() as int),
            it.seq() == s@,
    {
        v.push(c);
    }
    v
}

/// `String::from_iter` over characters: the string of exactly these
/// characters, in order.
#[verifier::external_body]
pub(crate) fn string_from_chars(v: &Vec<char>) -> (s: String)
    ensures
        s@ == v@,
{
    v.iter().collect()
}

/// Appends the characters of `s` to `v`.
pub fn push_str(v: &mut Vec<char>, s: &str)
    ensures
        final(v)@ == old(v)@ + s@,
{
    let cs = chars_of(s);
    let mut i: usize = 0;
    while i < cs.len()
        invariant
            i <= cs@.len(),
            cs@ == s@,
            v@ == old(v)@ + cs@.take(i as int),
        decreases cs.len() - i,
    {
        v.push(cs[i]);
        i = i + 1;
        assert(v@ =~= old(v)@ + cs@.take(i as int));
    }
    assert(cs@.take(cs@.len() as int) =~= cs@);
}

/// Appends the characters of `w` to `v`.
pub fn push_vec(v: &mut Vec<char>, w: &Vec<char>)
    ensures
        final(v)@ == old(v)@ + w@,
{
    let mut i: usize = 0;
    while i < w.len()
        invariant
            i <= w@.len(),
            v@ == old(v)@ + w@.take(i as int),
        decreases w.len() - i,
    {
        v.push(w[i]);
        i = i + 1;
        assert(v@ =~= old(v)@ + w@.take(i as int));
    }
    assert(w@.take(w@.len() as int) =~= w@);
}

/// The characters `v[lo..hi]` as a string.
pub fn string_from_range(v: &Vec<char>, lo: usize, hi: usize) -> (s: String)
    requires
        lo <= hi <= v.len(),
    ensures
        s@ == v@.subrange(lo as int, hi as int),
{
    let mut out: Vec<char> = Vec::new();
    let mut i = lo;
    while i < hi
        invariant
            lo <= i <= hi <= v.len(),
            out@ == v@.subrange(lo as int, i as int),
        decreases hi - i,
    {
        out.push(v[i]);
        i = i + 1;
    }
    string_from_chars(&out)
}

/// Whether two strings hold the same characters.
pub fn str_eq(a: &str, b: &str) -> (r: bool)
    ensures
        r == (a@ == b@),
{
    let va = chars_of(a);
    let vb = chars_of(b);
    seq_eq(&va, &vb)
}

/// Whether two character vectors are equal.
pub fn seq_eq(a: &Vec<char>, b: &Vec<char>) -> (r: bool)
    ensures
        r == (a@ == b@),
{
    if a.len() != b.len() {
        return false;
    }
    let mut i: usize = 0;
    while i < a.len()
        invariant
            a.len() == b.len(),
            i <= a.len(),
            forall|j: int| 0 <= j < i ==> a@[j] == b@[j],
        decreases a.len() - i,
    {
        if a[i] != b[i] {
            return false;
        }
        i = i + 1;
    }
    assert(a@ =~= b@);
    true
}

/// Whether `v[lo..hi]` equals the characters of `lit`.
pub fn range_eq_str(v: &Vec<char>, lo: usize, hi: usize, lit: &str) -> (r: bool)
    requires
        lo <= hi <= v.len(),
    ensures
        r == (v@.subrange(lo as int, hi as int) == lit@),
{
    let w = chars_of(lit);
    if hi - lo != w.len() {
        return false;
    }
    let mut i: usize = 0;
    while i < w.len()
        invariant
            lo <= hi <= v.len(),
            hi - lo == w.len(),
            w@ == lit@,
            i <= w.len(),
            forall|j: int| 0 <= j < i ==> v@[lo + j] == w@[j],
        decreases w.len() - i,
    {
        if v[lo + i] != w[i] {
            return false;
        }
        i = i + 1;
    }
    assert(v@.subrange(lo as int, hi as int) =~= w@);
    true
}

// ---------------------------------------------------------------------------
// Whitespace and trimming

/// Unicode `White_Space`, the set that `char::is_whitespace` tests.
pub open spec fn is_ws(c: char) -> bool {
    let x = c as int;
    ||| 0x09 <= x <= 0x0D
    ||| x == 0x20
    ||| x == 0x85
    ||| x == 0xA0
    ||| x == 0x1680
    ||| 0x2000 <= x <= 0x200A
    ||| x == 0x2028
    ||| x == 0x2029
    ||| x == 0x202F
    ||| x == 0x205F
    ||| x == 0x3000
}

pub fn char_is_ws(c: char) -> (r: bool)
    ensures
        r == is_ws(c),
{
    let x = c as u32;
    (0x09 <= x && x <= 0x0D) || x == 0x20 || x == 0x85 || x == 0xA0 || x == 0x1680 || (0x2000
        <= x && x <= 0x200A) || x == 0x2028 || x == 0x2029 || x == 0x202F || x == 0x205F || x
        == 0x3000
}

/// The sequence without its leading whitespace.
pub open spec fn trim_start(s: Seq<char>) -> Seq<char>
    decreases s.len(),
{
    if s.len() > 0 && is_ws(s[0]) {
        trim_start(s.drop_first())
    } else {
        s
    }
}

/// The sequence without its trailing whitespace.
pub open spec fn trim_end(s: Seq<char>) -> Seq<char>
    decreases s.len(),
{
    if s.len() > 0 && is_ws(s.last()) {
        trim_end(s.drop_last())
    } else {
        s
    }
}

/// `str::trim`: the sequence without leading and trailing whitespace.
pub open spec fn trim(s: Seq<char>) -> Seq<char> {
    trim_end(trim_start(s))
}

/// Bounds of `trim(v[lo..hi])` inside `v`.
pub fn trim_bounds(v: &Vec<char>, lo: usize, hi: usize) -> (r: (usize, usize))
    requires
        lo <= hi <= v.len(),
    ensures
        lo <= r.0 <= r.1 <= hi,
        v@.subrange(r.0 as int, r.1 as int) == trim(v@.subrange(lo as int, hi as int)),
{
    let mut a = lo;
    while a < hi && char_is_ws(v[a])
        invariant
            lo <= a <= hi <= v.len(),
            trim_start(v@.subrange(a as int, hi as int)) == trim_start(
                v@.subrange(lo as int, hi as int),
            ),
        decreases hi - a,
    {
        assert(v@.subrange(a as int, hi as int).drop_first() =~= v@.subrange(
            a + 1,
            hi as int,
        ));
        a = a + 1;
    }
    let mut b = hi;
    while b > a && char_is_ws(v[b - 1])
        invariant
            lo <= a <= b <= hi <= v.len(),
            trim_end(v@.subrange(a as int, b as int)) == trim(v@.subrange(lo as int, hi as int)),
        decreases b - a,
    {
        assert(v@.subrange(a as int, b as int).drop_last() =~= v@.subrange(
            a as int,
            b - 1,
        ));
        b = b - 1;
    }
    (a, b)
}

/// `str::trim` of a string.
pub fn trim_str(s: &str) -> (r: String)
    ensures
        r@ == trim(s@),
{
    let v = chars_of(s);
    let (a, b) = trim_bounds(&v, 0, v.len());
    assert(v@.subrange(0, v.len() as int) =~= v@);
    string_from_range(&v, a, b)
}

/// `trim_start(s)` is a suffix of `s` whose dropped part is whitespace and
/// which is empty or starts with a non-whitespace character.
pub proof fn lemma_trim_start_shape(s: Seq<char>)
    ensures
        trim_start(s).len() <= s.len(),
        trim_start(s) == s.subrange(s.len() - trim_start(s).len(), s.len() as int),
        forall|i: int| 0 <= i < s.len() - trim_start(s).len() ==> is_ws(#[trigger] s[i]),
        trim_start(s).len() > 0 ==> !is_ws(trim_start(s)[0]),
    decreases s.len(),
{
    if s.len() > 0 && is_ws(s[0]) {
        lemma_trim_start_shape(s.drop_first());
        assert forall|i: int| 0 <= i < s.len() - trim_start(s).len() implies is_ws(
            #[trigger] s[i],
        ) by {
            if i > 0 {
                assert(s[i] == s.drop_first()[i - 1]);
            }
        }
    } else {
        assert(s.subrange(0, s.len() as int) =~= s);
    }
}

/// `trim_end(s)` is a prefix of `s` whose dropped part is whitespace and
/// which is empty or ends with a non-whitespace character.
pub proof fn lemma_trim_end_shape(s: Seq<char>)
    ensures
        trim_end(s).len() <= s.len(),
        trim_end(s) == s.subrange(0, trim_end(s).len() as int),
        forall|i: int| trim_end(s).len() <= i < s.len() ==> is_ws(#[trigger] s[i]),
        trim_end(s).len() > 0 ==> !is_ws(trim_end(s).last()),
    decreases s.len(),
{
    if s.len() > 0 && is_ws(s.last()) {
        lemma_trim_end_shape(s.drop_last());
        assert forall|i: int| trim_end(s).len() <= i < s.len() implies is_ws(#[trigger] s[i]) by {
            if i < s.len() - 1 {
                assert(s[i] == s.drop_last()[i]);
            }
        }
    } else {
        assert(s.subrange(0, s.len() as int) =~= s);
    }
}

// ---------------------------------------------------------------------------
// Splitting on a separator character

/// Index of the first `c` in `s`, or -1.
pub open spec fn find_char(s: Seq<char>, c: char) -> int
    decreases s.len(),
{
    if s.len() == 0 {
        -1
    } else if s[0] == c {
        0
    } else {
        let r = find_char(s.drop_first(), c);
        if r < 0 {
            -1
        } else {
            r + 1
        }
    }
}

pub proof fn lemma_find_char(s: Seq<char>, c: char)
    ensures
        -1 <= find_char(s, c) < s.len(),
        find_char(s, c) >= 0 ==> s[find_char(s, c)] == c,
        forall|j: int| 0 <= j < s.len() && (find_char(s, c) < 0 || j < find_char(s, c)) ==> s[j]
            != c,
    decreases s.len(),
{
    if s.len() > 0 && s[0] != c {
        lemma_find_char(s.drop_first(), c);
        assert forall|j: int|
            0 <= j < s.len() && (find_char(s, c) < 0 || j < find_char(s, c)) implies s[j] != c by {
            if j > 0 {
                assert(s[j] == s.drop_first()[j - 1]);
            }
        }
    }
}

/// Position of the first `c` in `v[lo..hi]`, as an absolute index.
pub fn find_in_range(v: &Vec<char>, lo: usize, hi: usize, c: char) -> (r: Option<usize>)
    requires
        lo <= hi <= v.len(),
    ensures
        r is None ==> find_char(v@.subrange(lo as int, hi as int), c) == -1,
        r matches Some(k) ==> lo <= k < hi && find_char(v@.subrange(lo as int, hi as int), c)
            == k - lo,
{
    let ghost s = v@.subrange(lo as int, hi as int);
    proof {
        lemma_find_char(s, c);
    }
    let mut i = lo;
    while i < hi
        invariant
            lo <= i <= hi <= v.len(),
            s == v@.subrange(lo as int, hi as int),
            forall|j: int| lo <= j < i ==> v@[j] != c,
            -1 <= find_char(s, c) < s.len(),
            find_char(s, c) >= 0 ==> s[find_char(s, c)] == c,
            forall|j: int| 0 <= j < s.len() && (find_char(s, c) < 0 || j < find_char(s, c)) ==> s[j]
                != c,
        decreases hi - i,
    {
        if v[i] == c {
            proof {
                assert(s[i - lo] == c);
                if find_char(s, c) >= 0 && find_char(s, c) < i - lo {
                    assert(v@[lo + find_char(s, c)] == s[find_char(s, c)]);
                }
            }
            return Some(i);
        }
        i = i + 1;
    }
    proof {
        if find_char(s, c) >= 0 {
            assert(v@[lo + find_char(s, c)] == s[find_char(s, c)]);
        }
    }
    None
}

/// Whether `s` contains `c`.
pub open spec fn has_char(s: Seq<char>, c: char) -> bool {
    exists|i: int| 0 <= i < s.len() && s[i] == c
}

/// Index of the last `c` in `s`, or -1.
pub open spec fn rfind_char(s: Seq<char>, c: char) -> int
    decreases s.len(),
{
    if s.len() == 0 {
        -1
    } else if s.last() == c {
        s.len() - 1
    } else {
        rfind_char(s.drop_last(), c)
    }
}

/// `str::split(c)`: the pieces between occurrences of `c` (there is always
/// at least one piece).
pub open spec fn split_char(s: Seq<char>, c: char) -> Seq<Seq<char>>
    decreases s.len(),
{
    let k = rfind_char(s, c);
    if k < 0 {
        seq![s]
    } else {
        proof {
            lemma_rfind_char(s, c);
        }
        split_char(s.take(k), c).push(s.skip(k + 1))
    }
}

/// The pieces joined back together with `c` between neighbours.
pub open spec fn join_char(parts: Seq<Seq<char>>, c: char) -> Seq<char>
    decreases parts.len(),
{
    if parts.len() <= 1 {
        if parts.len() == 0 {
            Seq::empty()
        } else {
            parts[0]
        }
    } else {
        join_char(parts.drop_last(), c).push(c) + parts.last()
    }
}

pub proof fn lemma_rfind_char(s: Seq<char>, c: char)
    ensures
        -1 <= rfind_char(s, c) < s.len(),
        rfind_char(s, c) >= 0 ==> s[rfind_char(s, c)] == c,
        forall|j: int| rfind_char(s, c) < j < s.len() ==> s[j] != c,
    decreases s.len(),
{
    if s.len() > 0 && s.last() != c {
        lemma_rfind_char(s.drop_last(), c);
        assert forall|j: int| rfind_char(s, c) < j < s.len() implies s[j] != c by {
            if j < s.len() - 1 {
                assert(s[j] == s.drop_last()[j]);
            }
        }
    }
}

/// Adding a character other than the separator extends the last piece;
/// adding the separator opens a new empty piece.
pub proof fn lemma_split_push(s: Seq<char>, c: char, x: char)
    ensures
        x == c ==> split_char(s.push(x), c) == split_char(s, c).push(Seq::empty()),
        x != c ==> split_char(s.push(x), c) == split_char(s, c).update(
            split_char(s, c).len() - 1,
            split_char(s, c).last().push(x),
        ),
        split_char(s, c).len() >= 1,
    decreases s.len(),
{
    let t = s.push(x);
    assert(t.drop_last() =~= s);
    lemma_split_len(s, c);
    if x == c {
        assert(t.take(s.len() as int) =~= s);
        assert(t.skip(s.len() as int + 1) =~= Seq::<char>::empty());
    } else {
        let k = rfind_char(s, c);
        assert(rfind_char(t, c) == k);
        if k < 0 {
        } else {
            lemma_rfind_char(s, c);
            assert(t.take(k) =~= s.take(k));
            assert(t.skip(k + 1) =~= s.skip(k + 1).push(x));
        }
    }
}

pub proof fn lemma_split_len(s: Seq<char>, c: char)
    ensures
        split_char(s, c).len() >= 1,
    decreases s.len(),
{
    let k = rfind_char(s, c);
    lemma_rfind_char(s, c);
    if k >= 0 {
        lemma_split_len(s.take(k), c);
    }
}

/// Splitting what was joined gives back the pieces, provided no piece holds
/// the separator.
pub proof fn lemma_split_join(parts: Seq<Seq<char>>, c: char)
    requires
        parts.len() >= 1,
        forall|i: int| 0 <= i < parts.len() ==> !has_char(#[trigger] parts[i], c),
    ensures
        split_char(join_char(parts, c), c) == parts,
    decreases parts.len(),
{
    if parts.len() == 1 {
        lemma_rfind_none(parts[0], c);
        assert(split_char(parts[0], c) =~= parts);
    } else {
        let init = parts.drop_last();
        let last = parts.last();
        assert forall|i: int| 0 <= i < init.len() implies !has_char(#[trigger] init[i], c) by {
            assert(init[i] == parts[i]);
        }
        lemma_split_join(init, c);
        let j = join_char(init, c);
        let s = j.push(c) + last;
        assert(!has_char(last, c));
        lemma_rfind_char(s, c);
        assert(s[j.len() as int] == c);
        assert forall|m: int| j.len() < m < s.len() implies s[m] != c by {
            assert(s[m] == last[m - j.len() - 1]);
        }
        lemma_rfind_at(s, c, j.len() as int);
        assert(s.take(j.len() as int) =~= j);
        assert(s.skip(j.len() as int + 1) =~= last);
        assert(split_char(s, c) =~= parts);
    }
}

proof fn lemma_rfind_none(s: Seq<char>, c: char)
    requires
        !has_char(s, c),
    ensures
        rfind_char(s, c) == -1,
{
    lemma_rfind_char(s, c);
    if rfind_char(s, c) >= 0 {
        assert(s[rfind_char(s, c)] == c);
    }
}

proof fn lemma_rfind_at(s: Seq<char>, c: char, k: int)
    requires
        0 <= k < s.len(),
        s[k] == c,
        forall|m: int| k < m < s.len() ==> s[m] != c,
    ensures
        rfind_char(s, c) == k,
    decreases s.len(),
{
    if s.last() != c {
        let t = s.drop_last();
        assert forall|m: int| k < m < t.len() implies t[m] != c by {
            assert(t[m] == s[m]);
        }
        lemma_rfind_at(t, c, k);
    }
}

/// `str::split(c)` into owned pieces.
pub fn split_vec(v: &Vec<char>, c: char) -> (parts: Vec<Vec<char>>)
    ensures
        parts@.len() == split_char(v@, c).len(),
        forall|i: int| 0 <= i < parts@.len() ==> #[trigger] parts@[i]@ == split_char(v@, c)[i],
{
    let mut parts: Vec<Vec<char>> = Vec::new();
    let mut cur: Vec<char> = Vec::new();
    let mut i: usize = 0;
    proof {
        assert(v@.take(0) =~= Seq::<char>::empty());
        lemma_rfind_none(Seq::<char>::empty(), c);
    }
    while i < v.len()
        invariant
            i <= v.len(),
            parts@.len() + 1 == split_char(v@.take(i as int), c).len(),
            forall|j: int| 0 <= j < parts@.len() ==> #[trigger] parts@[j]@ == split_char(
                v@.take(i as int),
                c,
            )[j],
            cur@ == split_char(v@.take(i as int), c).last(),
        decreases v.len() - i,
    {
        proof {
            lemma_split_push(v@.take(i as int), c, v@[i as int]);
            assert(v@.take(i + 1) =~= v@.take(i as int).push(v@[i as int]));
        }
        if v[i] == c {
            let done = cur;
            parts.push(done);
            cur = Vec::new();
            proof {
                assert(cur@ =~= Seq::<char>::empty());
            }
        } else {
            cur.push(v[i]);
        }
        i = i + 1;
    }
    proof {
        assert(v@.take(v.len() as int) =~= v@);
    }
    let ghost before = parts@;
    parts.push(cur);
    proof {
        assert forall|j: int| 0 <= j < parts@.len() implies #[trigger] parts@[j]@ == split_char(
            v@,
            c,
        )[j] by {
            if j < before.len() {
                assert(parts@[j] == before[j]);
            }
        }
    }
    parts
}

// ---------------------------------------------------------------------------
// Decimal numerals

pub open spec fn is_digit(c: char) -> bool {
    '0' <= c && c <= '9'
}

/// The value of a decimal digit character.
pub open spec fn digit_value(c: char) -> nat {
    (c as int - '0' as int) as nat
}

/// The digit character of a value below ten.
pub open spec fn digit_char(d: nat) -> char {
    ('0' as int + d) as char
}

/// The value of a string of decimal digits.
pub open spec fn digits_value(s: Seq<char>) -> nat
    decreases s.len(),
{
    if s.len() == 0 {
        0
    } else {
        digits_value(s.drop_last()) * 10 + digit_value(s.last())
    }
}

/// The shortest decimal numeral of `n`.
pub open spec fn dec(n: nat) -> Seq<char>
    decreases n,
{
    if n < 10 {
        seq![digit_char(n)]
    } else {
        dec(n / 10).push(digit_char(n % 10))
    }
}

/// `s` left-padded with `'0'` up to `width` characters.
pub open spec fn zero_pad(s: Seq<char>, width: nat) -> Seq<char> {
    if s.len() >= width {
        s
    } else {
        Seq::new((width - s.len()) as nat, |i: int| '0') + s
    }
}

/// The decimal numeral of a signed integer, with a leading `-` when negative.
pub open spec fn dec_int(n: int) -> Seq<char> {
    if n < 0 {
        seq!['-'] + dec((-n) as nat)
    } else {
        dec(n as nat)
    }
}

/// The numeral after an optional leading `+`.
pub open spec fn unsigned_body(s: Seq<char>) -> Seq<char> {
    if s.len() > 0 && s[0] == '+' {
        s.drop_first()
    } else {
        s
    }
}

/// Every character is a decimal digit.
pub open spec fn all_digits(t: Seq<char>) -> bool {
    forall|i: int| 0 <= i < t.len() ==> is_digit(#[trigger] t[i])
}

/// `u32::from_str`: an optional `+` followed by at least one decimal digit,
/// with a value that fits in 32 bits.
pub open spec fn parse_u32(s: Seq<char>) -> Option<u32> {
    let t = unsigned_body(s);
    if t.len() == 0 || !all_digits(t) {
        None
    } else if digits_value(t) > u32::MAX {
        None
    } else {
        Some(digits_value(t) as u32)
    }
}

pub proof fn lemma_dec_digits(n: nat)
    ensures
        dec(n).len() >= 1,
        forall|i: int| 0 <= i < dec(n).len() ==> is_digit(#[trigger] dec(n)[i]),
        digits_value(dec(n)) == n,
        n > 0 ==> dec(n)[0] != '0',
    decreases n,
{
    if n < 10 {
        assert(dec(n).drop_last() =~= Seq::<char>::empty());
        assert(digits_value(Seq::<char>::empty()) == 0);
        assert(digit_value(digit_char(n)) == n);
        assert(digits_value(dec(n)) == digits_value(dec(n).drop_last()) * 10 + digit_value(dec(n).last()));
    } else {
        lemma_dec_digits(n / 10);
        let d = dec(n / 10);
        assert(dec(n).drop_last() =~= d);
        assert(digit_value(digit_char(n % 10)) == n % 10);
        assert((n / 10) * 10 + n % 10 == n) by (nonlinear_arith);
        assert(digits_value(dec(n)) == digits_value(dec(n).drop_last()) * 10 + digit_value(dec(n).last()));
        assert forall|i: int| 0 <= i < dec(n).len() implies is_digit(#[trigger] dec(n)[i]) by {
            if i < d.len() {
                assert(dec(n)[i] == d[i]);
            }
        }
        assert(dec(n)[0] == d[0]);
    }
}

pub proof fn lemma_digits_value_zeros(z: Seq<char>, s: Seq<char>)
    requires
        forall|i: int| 0 <= i < z.len() ==> z[i] == '0',
    ensures
        digits_value(z + s) == digits_value(s),
    decreases s.len() + z.len(),
{
    if s.len() > 0 {
        assert((z + s).drop_last() =~= z + s.drop_last());
        lemma_digits_value_zeros(z, s.drop_last());
    } else if z.len() > 0 {
        assert(z + s =~= z);
        assert(z.drop_last() + s =~= z.drop_last());
        lemma_digits_value_zeros(z.drop_last(), s);
    } else {
        assert(z + s =~= s);
    }
}

pub proof fn lemma_digits_value_monotone(s: Seq<char>, k: int)
    requires
        0 <= k <= s.len(),
    ensures
        digits_value(s.take(k)) <= digits_value(s),
    decreases s.len() - k,
{
    if k < s.len() {
        lemma_digits_value_monotone(s.drop_last(), if k < s.len() { k } else { 0 });
        assert(s.drop_last().take(k) =~= s.take(k));
    } else {
        assert(s.take(k) =~= s);
    }
}

/// A zero-padded numeral parses back to its value.
pub proof fn lemma_parse_zero_padded(n: u32, width: nat)
    ensures
        parse_u32(zero_pad(dec(n as nat), width)) == Some(n),
{
    lemma_dec_digits(n as nat);
    let d = dec(n as nat);
    let p = zero_pad(d, width);
    if d.len() < width {
        let z = Seq::new((width - d.len()) as nat, |i: int| '0');
        lemma_digits_value_zeros(z, d);
        assert forall|i: int| 0 <= i < p.len() implies is_digit(#[trigger] p[i]) by {
            if i >= z.len() {
                assert(p[i] == d[i - z.len()]);
            }
        }
    }
    assert(p.len() > 0);
    assert(p[0] != '+');
}

/// The digit character of a value below ten.
pub fn digit_to_char(d: u64) -> (c: char)
    requires
        d < 10,
    ensures
        c == digit_char(d as nat),
        is_digit(c),
{
    let c = ((d as u8) + 48u8) as char;
    c
}

/// The shortest decimal numeral of `n`.
pub fn format_dec(n: u64) -> (v: Vec<char>)
    ensures
        v@ == dec(n as nat),
    decreases n,
{
    if n < 10 {
        let mut v = Vec::new();
        v.push(digit_to_char(n));
        assert(v@ =~= seq![digit_char(n as nat)]);
        v
    } else {
        let mut v = format_dec(n / 10);
        v.push(digit_to_char(n % 10));
        v
    }
}

/// `format!("{n:0w$}")` for an unsigned number.
pub fn format_dec_padded(n: u64, width: usize) -> (v: Vec<char>)
    ensures
        v@ == zero_pad(dec(n as nat), width as nat),
{
    let d = format_dec(n);
    if d.len() >= width {
        return d;
    }
    let mut v: Vec<char> = Vec::new();
    let pad = width - d.len();
    let mut i: usize = 0;
    while i < pad
        invariant
            i <= pad,
            v@ == Seq::new(i as nat, |j: int| '0'),
        decreases pad - i,
    {
        v.push('0');
        i = i + 1;
        assert(v@ =~= Seq::new(i as nat, |j: int| '0'));
    }
    let mut k: usize = 0;
    let ghost z = v@;
    while k < d.len()
        invariant
            k <= d.len(),
            z == Seq::new(pad as nat, |j: int| '0'),
            v@ == z + d@.take(k as int),
        decreases d.len() - k,
    {
        v.push(d[k]);
        k = k + 1;
        assert(v@ =~= z + d@.take(k as int));
    }
    assert(d@.take(d.len() as int) =~= d@);
    v
}

/// `format!("{n}")` for a signed number.
pub fn format_dec_i64(n: i64) -> (v: Vec<char>)
    ensures
        v@ == dec_int(n as int),
{
    if n < 0 {
        let m: u64 = (0i128 - (n as i128)) as u64;
        let d = format_dec(m);
        let mut v = Vec::new();
        v.push('-');
        let mut k: usize = 0;
        while k < d.len()
            invariant
                k <= d.len(),
                v@ == seq!['-'] + d@.take(k as int),
            decreases d.len() - k,
        {
            v.push(d[k]);
            k = k + 1;
            assert(v@ =~= seq!['-'] + d@.take(k as int));
        }
        assert(d@.take(d.len() as int) =~= d@);
        v
    } else {
        format_dec(n as u64)
    }
}

/// `u32::from_str` on `v[lo..hi]`.
pub fn parse_u32_range(v: &Vec<char>, lo: usize, hi: usize) -> (r: Option<u32>)
    requires
        lo <= hi <= v.len(),
    ensures
        r == parse_u32(v@.subrange(lo as int, hi as int)),
{
    let ghost s = v@.subrange(lo as int, hi as int);
    let mut start = lo;
    if lo < hi && v[lo] == '+' {
        start = lo + 1;
    }
    let ghost t = v@.subrange(start as int, hi as int);
    assert(t == unsigned_body(s)) by {
        if s.len() > 0 && s[0] == '+' {
            assert(s.drop_first() =~= t);
        } else {
            assert(s =~= t);
        }
    }
    if start == hi {
        return None;
    }
    let mut acc: u64 = 0;
    let mut i = start;
    while i < hi
        invariant
            lo <= start <= i <= hi <= v.len(),
            start < hi,
            s == v@.subrange(lo as int, hi as int),
            t == unsigned_body(s),
            t == v@.subrange(start as int, hi as int),
            acc == digits_value(t.take(i - start)),
            acc <= u32::MAX,
            forall|j: int| 0 <= j < i - start ==> is_digit(#[trigger] t[j]),
        decreases hi - i,
    {
        let c = v[i];
        if !('0' <= c && c <= '9') {
            assert(t[i - start] == c);
            assert(!is_digit(t[i - start]));
            return None;
        }
        let d = (c as u32 - 48u32) as u64;
        proof {
            let p = t.take(i + 1 - start);
            assert(p.drop_last() =~= t.take(i - start));
            assert(p.last() == c);
        }
        acc = acc * 10 + d;
        if acc > 0xFFFF_FFFF {
            proof {
                lemma_digits_value_monotone(t, i + 1 - start);
            }
            return None;
        }
        i = i + 1;
    }
    assert(t.take(t.len() as int) =~= t);
    Some(acc as u32)
}

// ---------------------------------------------------------------------------
// Replacing a pattern

/// `str::replace(pat, rep)`: every occurrence of the non-empty `pat`,
/// scanning left to right without overlaps, replaced by `rep`.
pub open spec fn replace_all(s: Seq<char>, pat: Seq<char>, rep: Seq<char>) -> Seq<char>
    decreases s.len(),
{
    if s.len() == 0 {
        Seq::empty()
    } else if 0 < pat.len() <= s.len() && s.subrange(0, pat.len() as int) == pat {
        rep + replace_all(s.subrange(pat.len() as int, s.len() as int), pat, rep)
    } else {
        seq![s[0]] + replace_all(s.drop_first(), pat, rep)
    }
}

/// Replaces every occurrence of `pat` in `s` by `rep`.
pub fn replace_str(s: &str, pat: &str, rep: &str) -> (r: String)
    requires
        pat@.len() > 0,
    ensures
        r@ == replace_all(s@, pat@, rep@),
{
    let v = chars_of(s);
    let plen = chars_of(pat).len();
    let n = v.len();
    let mut out: Vec<char> = Vec::new();
    let mut i: usize = 0;
    assert(v@.subrange(0, n as int) =~= v@);
    assert(out@ + replace_all(v@, pat@, rep@) =~= replace_all(v@, pat@, rep@));
    while i < n
        invariant
            i <= n == v@.len(),
            v@ == s@,
            plen == pat@.len(),
            plen > 0,
            out@ + replace_all(v@.subrange(i as int, n as int), pat@, rep@) == replace_all(v@, pat@, rep@),
        decreases n - i,
    {
        let ghost rest = v@.subrange(i as int, n as int);
        if plen <= n - i && range_eq_str(&v, i, i + plen, pat) {
            assert(rest.subrange(0, plen as int) =~= v@.subrange(i as int, (i + plen) as int));
            assert(rest.subrange(plen as int, rest.len() as int) =~= v@.subrange((i + plen) as int, n as int));
            let ghost before = out@;
            push_str(&mut out, rep);
            i = i + plen;
            assert(before + (rep@ + replace_all(v@.subrange(i as int, n as int), pat@, rep@)) =~= out@
                + replace_all(v@.subrange(i as int, n as int), pat@, rep@));
        } else {
            assert(!(0 < pat@.len() <= rest.len() && rest.subrange(0, pat@.len() as int) == pat@)) by {
                if plen <= n - i {
                    assert(rest.subrange(0, plen as int) =~= v@.subrange(i as int, (i + plen) as int));
                }
            }
            assert(rest.drop_first() =~= v@.subrange(i + 1, n as int));
            let ghost before = out@;
            out.push(v[i]);
            i = i + 1;
            assert(before + (seq![rest[0]] + replace_all(v@.subrange(i as int, n as int), pat@, rep@)) =~= out@
                + replace_all(v@.subrange(i as int, n as int), pat@, rep@));
        }
    }
    assert(v@.subrange(0, n as int) =~= v@);
    assert(out@ + replace_all(v@.subrange(n as int, n as int), pat@, rep@) =~= out@);
    string_from_chars(&out)
}

// ---------------------------------------------------------------------------
// Unsigned 64-bit integers

/// Why a numeral is not a `u64`, as `u64::from_str` reports it.
#[derive(Debug, Clone, Copy, PartialEq, Eq, Structural)]
pub enum IntErrorKind {
    Empty,
    InvalidDigit,
    PosOverflow,
}

impl IntErrorKind {
    /// The text `ParseIntError` displays for the kind.
    pub open spec fn message(self) -> Seq<char> {
        match self {
            IntErrorKind::Empty => "cannot parse integer from empty string"@,
            IntErrorKind::InvalidDigit => "invalid digit found in string"@,
            IntErrorKind::PosOverflow => "number too large to fit in target type"@,
        }
    }

    pub fn to_string(self) -> (s: String)
        ensures
            s@ == self.message(),
    {
        match self {
            IntErrorKind::Empty => "cannot parse integer from empty string".to_string(),
            IntErrorKind::InvalidDigit => "invalid digit found in string".to_string(),
            IntErrorKind::PosOverflow => "number too large to fit in target type".to_string(),
        }
    }
}

/// `u64::from_str`: empty text, then an optional `+` followed by at least
/// one decimal digit, with a value that fits in 64 bits.
pub open spec fn parse_u64_spec(s: Seq<char>) -> Result<u64, IntErrorKind> {
    let t = unsigned_body(s);
    if s.len() == 0 {
        Err(IntErrorKind::Empty)
    } else if t.len() == 0 || !all_digits(t) {
        Err(IntErrorKind::InvalidDigit)
    } else if digits_value(t) > u64::MAX {
        Err(IntErrorKind::PosOverflow)
    } else {
        Ok(digits_value(t) as u64)
    }
}

/// Parses `v[lo..hi]` as a `u64`.
pub fn parse_u64_range(v: &Vec<char>, lo: usize, hi: usize) -> (r: Result<u64, IntErrorKind>)
    requires
        lo <= hi <= v.len(),
    ensures
        r == parse_u64_spec(v@.subrange(lo as int, hi as int)),
{
    let ghost s = v@.subrange(lo as int, hi as int);
    if lo == hi {
        return Err(IntErrorKind::Empty);
    }
    let mut start: usize = lo;
    if v[lo] == '+' {
        start = lo + 1;
    }
    let ghost t = v@.subrange(start as int, hi as int);
    assert(t == unsigned_body(s)) by {
        if s.len() > 0 && s[0] == '+' {
            assert(s.drop_first() =~= t);
        } else {
            assert(s =~= t);
        }
    }
    if start == hi {
        return Err(IntErrorKind::InvalidDigit);
    }
    let mut i: usize = start;
    while i < hi
        invariant
            lo <= start <= i <= hi <= v.len(),
            lo < hi,
            start < hi,
            s == v@.subrange(lo as int, hi as int),
            t == unsigned_body(s),
            t == v@.subrange(start as int, hi as int),
            forall|j: int| 0 <= j < i - start ==> is_digit(#[trigger] t[j]),
        decreases hi - i,
    {
        let c = v[i];
        if !('0' <= c && c <= '9') {
            assert(t[i - start] == c);
            return Err(IntErrorKind::InvalidDigit);
        }
        i = i + 1;
    }
    let mut acc: u128 = 0;
    let mut k: usize = start;
    while k < hi
        invariant
            lo <= start <= k <= hi <= v.len(),
            lo < hi,
            start < hi,
            s == v@.subrange(lo as int, hi as int),
            t == unsigned_body(s),
            t == v@.subrange(start as int, hi as int),
            all_digits(t),
            acc == digits_value(t.take(k - start)),
            acc <= u64::MAX,
        decreases hi - k,
    {
        let c = v[k];
        assert(t[k - start] == c);
        let d = (c as u32 - 48u32) as u128;
        proof {
            let p = t.take(k + 1 - start);
            assert(p.drop_last() =~= t.take(k - start));
            assert(p.last() == c);
        }
        acc = acc * 10 + d;
        if acc > 0xFFFF_FFFF_FFFF_FFFF {
            proof {
                lemma_digits_value_monotone(t, k + 1 - start);
            }
            return Err(IntErrorKind::PosOverflow);
        }
        k = k + 1;
    }
    assert(t.take(t.len() as int) =~= t);
    Ok(acc as u64)
}

} // verus!
