//! Byte-level text helpers shared by the framing, reassembly and message
//! building code: ASCII string/byte conversion, substring search, and
//! decimal rendering and parsing.

use vstd::prelude::*;

verus! {

use vstd::string::StringSliceAdditionalSpecFns;

/// The bytes of an ASCII character sequence, one byte per character.
pub open spec fn ascii_bytes(s: Seq<char>) -> Seq<u8> {
    Seq::new(s.len(), |i: int| s[i] as u8)
}

/// The bytes of an ASCII `&str`, obtained through `str::as_bytes`.
pub fn str_to_bytes(s: &str) -> (v: Vec<u8>)
    requires
        s.is_ascii(),
    ensures
        v@ == ascii_bytes(s@),
{
    proof {
        vstd::string::is_ascii_spec_bytes(s);
        assert(s.spec_bytes() =~= ascii_bytes(s@));
    }
    s.as_bytes_vec()
}

/// `n` occurs in `h` starting at index `i`.
pub open spec fn match_at(h: Seq<u8>, n: Seq<u8>, i: int) -> bool {
    &&& 0 <= i
    &&& i + n.len() <= h.len()
    &&& h.subrange(i, i + n.len() as int) == n
}

/// Position of the first occurrence of `n` in `s` at or after `p`.
pub open spec fn first_match(s: Seq<u8>, n: Seq<u8>, p: int) -> Option<int>
    decreases s.len() - p,
{
    if n.len() <= 0 || p < 0 || p + n.len() > s.len() {
        None
    } else if s.subrange(p, p + n.len()) == n {
        Some(p)
    } else {
        first_match(s, n, p + 1)
    }
}

/// What a successful first-match search means.
pub proof fn lemma_first_match_found(s: Seq<u8>, n: Seq<u8>, p: int, h: int)
    requires
        first_match(s, n, p) == Some(h),
    ensures
        p <= h,
        match_at(s, n, h),
        forall|j: int| p <= j < h ==> !match_at(s, n, j),
    decreases s.len() - p,
{
    if !(n.len() <= 0 || p < 0 || p + n.len() > s.len()) && s.subrange(p, p + n.len()) != n {
        lemma_first_match_found(s, n, p + 1, h);
    }
}

/// A match at `h` with no earlier match from `p` on is the first match.
pub proof fn lemma_first_match_at(s: Seq<u8>, n: Seq<u8>, p: int, h: int)
    requires
        n.len() >= 1,
        0 <= p <= h,
        match_at(s, n, h),
        forall|j: int| p <= j < h ==> !match_at(s, n, j),
    ensures
        first_match(s, n, p) == Some(h),
    decreases h - p,
{
    if p < h {
        assert(!match_at(s, n, p));
        lemma_first_match_at(s, n, p + 1, h);
    }
}

/// If `n` matches nowhere at or after `p`, the search comes back empty.
pub proof fn lemma_first_match_none(s: Seq<u8>, n: Seq<u8>, p: int)
    requires
        forall|j: int| p <= j ==> !match_at(s, n, j),
    ensures
        first_match(s, n, p) is None,
    decreases s.len() - p,
{
    if !(n.len() <= 0 || p < 0 || p + n.len() > s.len()) {
        assert(!match_at(s, n, p));
        lemma_first_match_none(s, n, p + 1);
    }
}

/// An empty search result means there is no match anywhere at or after `p`.
pub proof fn lemma_first_match_none_inv(s: Seq<u8>, n: Seq<u8>, p: int)
    requires
        n.len() >= 1,
        p >= 0,
        first_match(s, n, p) is None,
    ensures
        forall|j: int| p <= j ==> !match_at(s, n, j),
    decreases s.len() - p,
{
    if !(n.len() <= 0 || p < 0 || p + n.len() > s.len()) {
        lemma_first_match_none_inv(s, n, p + 1);
    }
}

/// Appending bytes does not move an already-found first match.
pub proof fn lemma_first_match_extend(s: Seq<u8>, m: Seq<u8>, n: Seq<u8>, p: int, h: int)
    requires
        first_match(s, n, p) == Some(h),
    ensures
        first_match(s + m, n, p) == Some(h),
{
    lemma_first_match_found(s, n, p, h);
    assert((s + m).subrange(h, h + n.len() as int) =~= s.subrange(h, h + n.len() as int));
    assert(match_at(s + m, n, h));
    assert forall|j: int| p <= j < h implies !match_at(s + m, n, j) by {
        if match_at(s + m, n, j) {
            assert((s + m).subrange(j, j + n.len() as int) =~= s.subrange(j, j + n.len() as int));
            assert(match_at(s, n, j));
        }
    }
    lemma_first_match_at(s + m, n, p, h);
}

/// Whether the bytes of `n` occur at position `i` of `h`, by direct comparison.
pub fn matches_here(h: &[u8], n: &[u8], i: usize) -> (r: bool)
    requires
        i + n@.len() <= h@.len(),
    ensures
        r == match_at(h@, n@, i as int),
{
    let hlen: usize = h.len();
    let mut k: usize = 0;
    while k < n.len()
        invariant
            hlen == h@.len(),
            i + n@.len() <= h@.len(),
            0 <= k <= n@.len(),
            forall|m: int| 0 <= m < k ==> h@[i + m] == n@[m],
        decreases n@.len() - k,
    {
        assert(i + k < hlen);
        if h[i + k] != n[k] {
            assert(h@.subrange(i as int, i + n@.len() as int)[k as int] != n@[k as int]);
            return false;
        }
        k = k + 1;
    }
    assert(h@.subrange(i as int, i + n@.len() as int) =~= n@);
    true
}

/// Position of the first occurrence of `n` in `h` at or after `from`.
pub fn find_subseq_from(h: &[u8], n: &[u8], from: usize) -> (r: Option<usize>)
    requires
        n@.len() >= 1,
    ensures
        match r {
            Some(i) => {
                &&& from <= i
                &&& i + n@.len() <= h@.len()
                &&& first_match(h@, n@, from as int) == Some(i as int)
            },
            None => first_match(h@, n@, from as int) is None,
        },
{
    if n.len() > h.len() || from > h.len() - n.len() {
        proof {
            assert forall|j: int| from <= j implies !match_at(h@, n@, j) by {}
            lemma_first_match_none(h@, n@, from as int);
        }
        return None;
    }
    let last: usize = h.len() - n.len();
    let mut i: usize = from;
    while i <= last
        invariant
            n@.len() >= 1,
            n@.len() <= h@.len(),
            last == h@.len() - n@.len(),
            last < usize::MAX,
            from <= i <= last + 1,
            forall|j: int| from <= j < i ==> !match_at(h@, n@, j),
        decreases last + 1 - i,
    {
        if matches_here(h, n, i) {
            proof {
                lemma_first_match_at(h@, n@, from as int, i as int);
            }
            return Some(i);
        }
        i = i + 1;
    }
    proof {
        assert forall|j: int| from <= j implies !match_at(h@, n@, j) by {}
        lemma_first_match_none(h@, n@, from as int);
    }
    None
}

/// Length of the run of bytes satisfying `pred` that starts at `p`.
pub open spec fn run_len(s: Seq<u8>, p: int, pred: spec_fn(u8) -> bool) -> int
    decreases s.len() - p,
{
    if 0 <= p < s.len() && pred(s[p]) {
        1 + run_len(s, p + 1, pred)
    } else {
        0
    }
}

/// A run that covers `[p, q)` and stops at `q` has length `q - p`.
pub proof fn lemma_run_len_at(s: Seq<u8>, p: int, q: int, pred: spec_fn(u8) -> bool)
    requires
        0 <= p <= q <= s.len(),
        forall|j: int| p <= j < q ==> pred(#[trigger] s[j]),
        q == s.len() || !pred(s[q]),
    ensures
        run_len(s, p, pred) == q - p,
    decreases q - p,
{
    if p < q {
        lemma_run_len_at(s, p + 1, q, pred);
    }
}

/// What a run length means: the covered bytes satisfy `pred` and the run
/// stops at the end of `s` or at a byte that does not.
pub proof fn lemma_run_len_found(s: Seq<u8>, p: int, pred: spec_fn(u8) -> bool)
    requires
        0 <= p <= s.len(),
    ensures
        0 <= run_len(s, p, pred),
        p + run_len(s, p, pred) <= s.len(),
        forall|j: int| p <= j < p + run_len(s, p, pred) ==> pred(#[trigger] s[j]),
        p + run_len(s, p, pred) == s.len() || !pred(s[p + run_len(s, p, pred)]),
    decreases s.len() - p,
{
    if p < s.len() && pred(s[p]) {
        lemma_run_len_found(s, p + 1, pred);
    }
}

/// Whether two byte strings are equal.
pub fn bytes_eq(a: &[u8], b: &[u8]) -> (r: bool)
    ensures
        r == (a@ == b@),
{
    if a.len() != b.len() {
        return false;
    }
    let r = matches_here(a, b, 0);
    proof {
        assert(a@.subrange(0, a@.len() as int) =~= a@);
    }
    r
}

/// Whether `h` starts with the bytes of `n`.
pub fn starts_with(h: &[u8], n: &[u8]) -> (r: bool)
    ensures
        r == match_at(h@, n@, 0),
{
    if n.len() > h.len() {
        return false;
    }
    matches_here(h, n, 0)
}

/// Position of the first occurrence of `b` in `s` at or after `p`.
pub open spec fn first_byte(s: Seq<u8>, p: int, b: u8) -> Option<int>
    decreases s.len() - p,
{
    if p < 0 || p >= s.len() {
        None
    } else if s[p] == b {
        Some(p)
    } else {
        first_byte(s, p + 1, b)
    }
}

/// A position `q` holding `b`, with no earlier occurrence from `p` on, is the
/// first occurrence of `b` at or after `p`.
pub proof fn lemma_first_byte_at(s: Seq<u8>, p: int, b: u8, q: int)
    requires
        0 <= p <= q < s.len(),
        s[q] == b,
        forall|j: int| p <= j < q ==> s[j] != b,
    ensures
        first_byte(s, p, b) == Some(q),
    decreases q - p,
{
    if p < q {
        lemma_first_byte_at(s, p + 1, b, q);
    }
}

/// If `b` does not occur at or after `p`, the search comes back empty.
pub proof fn lemma_first_byte_none(s: Seq<u8>, p: int, b: u8)
    requires
        forall|j: int| p <= j < s.len() ==> s[j] != b,
    ensures
        first_byte(s, p, b) is None,
    decreases s.len() - p,
{
    if 0 <= p < s.len() {
        lemma_first_byte_none(s, p + 1, b);
    }
}

/// First occurrence of `b` in `h` at or after `from`.
pub fn find_byte_from(h: &[u8], from: usize, b: u8) -> (r: Option<usize>)
    ensures
        match r {
            Some(q) => {
                &&& from <= q < h@.len()
                &&& h@[q as int] == b
                &&& first_byte(h@, from as int, b) == Some(q as int)
            },
            None => first_byte(h@, from as int, b) is None,
        },
{
    let hlen: usize = h.len();
    let mut i: usize = from;
    while i < hlen
        invariant
            hlen == h@.len(),
            from <= i,
            forall|j: int| from <= j < i ==> h@[j] != b,
        decreases hlen - i,
    {
        if h[i] == b {
            proof {
                lemma_first_byte_at(h@, from as int, b, i as int);
            }
            return Some(i);
        }
        i = i + 1;
    }
    proof {
        lemma_first_byte_none(h@, from as int, b);
    }
    None
}

/// ASCII decimal digit.
pub open spec fn is_digit(b: u8) -> bool {
    48 <= b <= 57
}

/// Every byte of `s` is an ASCII decimal digit.
pub open spec fn all_digits(s: Seq<u8>) -> bool {
    forall|i: int| 0 <= i < s.len() ==> is_digit(#[trigger] s[i])
}

/// The number denoted by a sequence of ASCII digits (most significant first).
pub open spec fn digits_value(s: Seq<u8>) -> nat
    decreases s.len(),
{
    if s.len() == 0 {
        0
    } else {
        digits_value(s.drop_last()) * 10 + (s.last() - 48) as nat
    }
}

/// For a digit string, the value of a prefix never exceeds the value of the
/// whole string.
pub proof fn lemma_digits_value_take(s: Seq<u8>, k: int)
    requires
        all_digits(s),
        0 <= k <= s.len(),
    ensures
        digits_value(s.take(k)) <= digits_value(s),
    decreases s.len() - k,
{
    if k < s.len() {
        assert(s.take(k + 1).drop_last() =~= s.take(k));
        assert(s.take(k + 1).last() == s[k]);
        assert(digits_value(s.take(k)) * 10 >= digits_value(s.take(k))) by (nonlinear_arith);
        assert(digits_value(s.take(k)) <= digits_value(s.take(k + 1)));
        lemma_digits_value_take(s, k + 1);
    } else {
        assert(s.take(k) =~= s);
    }
}

/// The shortest ASCII decimal rendering of `n` (no leading zeros except for 0).
pub open spec fn dec_bytes(n: nat) -> Seq<u8>
    decreases n,
{
    if n < 10 {
        seq![(48 + n) as u8]
    } else {
        dec_bytes(n / 10).push((48 + n % 10) as u8)
    }
}

/// The decimal rendering consists of digits and is never empty.
pub proof fn lemma_dec_bytes_digits(n: nat)
    ensures
        dec_bytes(n).len() >= 1,
        all_digits(dec_bytes(n)),
    decreases n,
{
    if n >= 10 {
        lemma_dec_bytes_digits(n / 10);
        assert forall|i: int| 0 <= i < dec_bytes(n).len() implies is_digit(dec_bytes(n)[i]) by {
            if i < dec_bytes(n / 10).len() {
                assert(dec_bytes(n)[i] == dec_bytes(n / 10)[i]);
            }
        }
    }
}

/// Parsing the decimal rendering of `n` gives back `n`.
pub proof fn lemma_dec_bytes_value(n: nat)
    ensures
        digits_value(dec_bytes(n)) == n,
    decreases n,
{
    if n < 10 {
        assert(digits_value(dec_bytes(n)) == digits_value(seq![(48 + n) as u8]));
        assert(digits_value(seq![(48 + n) as u8].drop_last()) == 0);
    } else {
        lemma_dec_bytes_value(n / 10);
        let s = dec_bytes(n / 10).push((48 + n % 10) as u8);
        assert(s.drop_last() =~= dec_bytes(n / 10));
        assert(digits_value(s) == (n / 10) * 10 + n % 10);
        assert((n / 10) * 10 + n % 10 == n) by (nonlinear_arith);
    }
}

/// The ASCII decimal rendering of `n`, most significant digit first.
pub fn u64_to_dec_bytes(n: u64) -> (v: Vec<u8>)
    ensures
        v@ == dec_bytes(n as nat),
    decreases n,
{
    if n < 10 {
        let mut v: Vec<u8> = Vec::new();
        v.push((48 + n) as u8);
        proof {
            assert(v@ =~= dec_bytes(n as nat));
        }
        v
    } else {
        let mut v = u64_to_dec_bytes(n / 10);
        v.push((48 + n % 10) as u8);
        proof {
            assert(v@ =~= dec_bytes(n as nat));
        }
        v
    }
}

/// The ASCII decimal digit character for `d`.
pub open spec fn digit_char(d: nat) -> char {
    if d == 0 {
        '0'
    } else if d == 1 {
        '1'
    } else if d == 2 {
        '2'
    } else if d == 3 {
        '3'
    } else if d == 4 {
        '4'
    } else if d == 5 {
        '5'
    } else if d == 6 {
        '6'
    } else if d == 7 {
        '7'
    } else if d == 8 {
        '8'
    } else {
        '9'
    }
}

/// The shortest decimal rendering of `n` as characters.
pub open spec fn dec_chars(n: nat) -> Seq<char>
    decreases n,
{
    if n < 10 {
        seq![digit_char(n)]
    } else {
        dec_chars(n / 10).push(digit_char(n % 10))
    }
}

/// One-character string slice for the digit `d`.
fn digit_str(d: u64) -> (s: &'static str)
    requires
        d < 10,
    ensures
        s@ == seq![digit_char(d as nat)],
        s.is_ascii(),
{
    proof {
        reveal_strlit("0");
        reveal_strlit("1");
        reveal_strlit("2");
        reveal_strlit("3");
        reveal_strlit("4");
        reveal_strlit("5");
        reveal_strlit("6");
        reveal_strlit("7");
        reveal_strlit("8");
        reveal_strlit("9");
    }
    let s: &'static str = if d == 0 {
        "0"
    } else if d == 1 {
        "1"
    } else if d == 2 {
        "2"
    } else if d == 3 {
        "3"
    } else if d == 4 {
        "4"
    } else if d == 5 {
        "5"
    } else if d == 6 {
        "6"
    } else if d == 7 {
        "7"
    } else if d == 8 {
        "8"
    } else {
        "9"
    };
    proof {
        assert(s@ =~= seq![digit_char(d as nat)]);
    }
    s
}

/// The decimal rendering of `n` as a `String`.
pub fn u64_to_string(n: u64) -> (s: String)
    ensures
        s@ == dec_chars(n as nat),
        vstd::string::string_is_ascii(&s),
    decreases n,
{
    if n < 10 {
        let s = String::from_str(digit_str(n));
        proof {
            assert(s@ =~= dec_chars(n as nat));
        }
        s
    } else {
        let mut s = u64_to_string(n / 10);
        s.append(digit_str(n % 10));
        proof {
            assert(s@ =~= dec_chars(n as nat));
        }
        s
    }
}

} // verus!
