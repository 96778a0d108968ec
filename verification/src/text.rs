//! Byte-level text helpers: decimal parsing and formatting, substring
//! search, whitespace splitting. Sysfs files and the mount table are read
//! as raw bytes; everything here is specified over `Seq<u8>`.

use vstd::prelude::*;

verus! {

/// An ASCII decimal digit.
pub open spec fn is_digit(b: u8) -> bool {
    48 <= b <= 57
}

/// ASCII whitespace, as the kernel emits it in sysfs files.
pub open spec fn is_ws(b: u8) -> bool {
    b == 32 || (9 <= b <= 13)
}

pub open spec fn all_digits(s: Seq<u8>) -> bool {
    forall|i: int| 0 <= i < s.len() ==> is_digit(#[trigger] s[i])
}

/// Value of a digit string, most significant first.
pub open spec fn digits_value(s: Seq<u8>) -> nat
    decreases s.len(),
{
    if s.len() == 0 {
        0
    } else {
        (digits_value(s.drop_last()) * 10 + (s.last() - 48)) as nat
    }
}

/// A non-empty, all-digit string whose value fits in `u64`.
pub open spec fn parses_u64(s: Seq<u8>) -> bool {
    s.len() > 0 && all_digits(s) && digits_value(s) <= u64::MAX
}

/// The parsed value, with the conservative default of 0 on malformed or
/// overflowing input.
pub open spec fn parse_u64_or_zero(s: Seq<u8>) -> u64 {
    if parses_u64(s) {
        digits_value(s) as u64
    } else {
        0
    }
}

pub open spec fn parses_u8(s: Seq<u8>) -> bool {
    s.len() > 0 && all_digits(s) && digits_value(s) <= u8::MAX
}

pub open spec fn parse_u8_or_zero(s: Seq<u8>) -> u8 {
    if parses_u8(s) {
        digits_value(s) as u8
    } else {
        0
    }
}

/// Extending a digit string never decreases its value.
proof fn lemma_digits_value_prefix(s: Seq<u8>, i: int)
    requires
        0 <= i <= s.len(),
        all_digits(s),
    ensures
        digits_value(s.subrange(0, i)) <= digits_value(s),
    decreases s.len() - i,
{
    if i == s.len() {
        assert(s.subrange(0, i) =~= s);
    } else {
        let t = s.subrange(0, i + 1);
        assert(t.drop_last() =~= s.subrange(0, i));
        lemma_digits_value_prefix(s, i + 1);
    }
}

/// Parse a decimal `u64`, returning 0 when the input is empty, holds a
/// non-digit, or overflows.
pub fn parse_u64_digits(s: &[u8]) -> (r: u64)
    ensures
        r == parse_u64_or_zero(s@),
{
    if s.len() == 0 {
        return 0;
    }
    let mut val: u64 = 0;
    let mut i: usize = 0;
    while i < s.len()
        invariant
            0 <= i <= s@.len(),
            all_digits(s@.subrange(0, i as int)),
            val == digits_value(s@.subrange(0, i as int)),
        decreases s@.len() - i,
    {
        let b = s[i];
        if b < 48 || b > 57 {
            assert(!all_digits(s@));
            return 0;
        }
        let d = (b - 48) as u64;
        if val > (u64::MAX - d) / 10 {
            proof {
                let t = s@.subrange(0, i + 1);
                assert(t.drop_last() =~= s@.subrange(0, i as int));
                assert(digits_value(t) > u64::MAX);
                if all_digits(s@) {
                    lemma_digits_value_prefix(s@, i + 1);
                }
            }
            return 0;
        }
        proof {
            let t = s@.subrange(0, i + 1);
            assert(t.drop_last() =~= s@.subrange(0, i as int));
        }
        val = val * 10 + d;
        i = i + 1;
    }
    assert(s@.subrange(0, s@.len() as int) =~= s@);
    val
}

/// Parse a decimal `u8`, returning 0 when the input is empty, holds a
/// non-digit, or overflows.
pub fn parse_u8_digits(s: &[u8]) -> (r: u8)
    ensures
        r == parse_u8_or_zero(s@),
{
    if s.len() == 0 {
        return 0;
    }
    let mut val: u8 = 0;
    let mut i: usize = 0;
    while i < s.len()
        invariant
            0 <= i <= s@.len(),
            all_digits(s@.subrange(0, i as int)),
            val == digits_value(s@.subrange(0, i as int)),
        decreases s@.len() - i,
    {
        let b = s[i];
        if b < 48 || b > 57 {
            assert(!all_digits(s@));
            return 0;
        }
        let d = (b - 48) as u8;
        if val > (u8::MAX - d) / 10 {
            proof {
                let t = s@.subrange(0, i + 1);
                assert(t.drop_last() =~= s@.subrange(0, i as int));
                assert(digits_value(t) > u8::MAX);
                if all_digits(s@) {
                    lemma_digits_value_prefix(s@, i + 1);
                }
            }
            return 0;
        }
        proof {
            let t = s@.subrange(0, i + 1);
            assert(t.drop_last() =~= s@.subrange(0, i as int));
        }
        val = val * 10 + d;
        i = i + 1;
    }
    assert(s@.subrange(0, s@.len() as int) =~= s@);
    val
}

/// `pat` occurs in `s` at position `i`.
pub open spec fn match_at(s: Seq<u8>, pat: Seq<u8>, i: int) -> bool {
    0 <= i && i + pat.len() <= s.len() && s.subrange(i, i + pat.len()) == pat
}

/// `pat` occurs somewhere in `s`.
pub open spec fn contains_seq(s: Seq<u8>, pat: Seq<u8>) -> bool {
    exists|i: int| match_at(s, pat, i)
}

pub open spec fn starts_with(s: Seq<u8>, pat: Seq<u8>) -> bool {
    pat.len() <= s.len() && s.subrange(0, pat.len() as int) == pat
}

pub open spec fn ends_with(s: Seq<u8>, pat: Seq<u8>) -> bool {
    pat.len() <= s.len() && s.subrange(s.len() - pat.len(), s.len() as int) == pat
}

/// The suffix after the last `/`, or all of `s` when it has none: the base
/// name of a device path.
pub open spec fn basename(s: Seq<u8>) -> Seq<u8>
    decreases s.len(),
{
    if s.len() == 0 {
        s
    } else if s.last() == 47 {
        Seq::empty()
    } else {
        basename(s.drop_last()).push(s.last())
    }
}

pub fn bytes_eq(a: &[u8], b: &[u8]) -> (r: bool)
    ensures
        r == (a@ == b@),
{
    if a.len() != b.len() {
        return false;
    }
    let mut i: usize = 0;
    while i < a.len()
        invariant
            0 <= i <= a@.len(),
            a@.len() == b@.len(),
            forall|j: int| 0 <= j < i ==> a@[j] == b@[j],
        decreases a@.len() - i,
    {
        if a[i] != b[i] {
            return false;
        }
        i = i + 1;
    }
    proof {
        assert(a@ =~= b@);
    }
    true
}

pub fn starts_with_bytes(s: &[u8], pat: &[u8]) -> (r: bool)
    ensures
        r == starts_with(s@, pat@),
{
    if pat.len() > s.len() {
        return false;
    }
    let mut i: usize = 0;
    while i < pat.len()
        invariant
            0 <= i <= pat@.len() <= s@.len(),
            forall|j: int| 0 <= j < i ==> s@[j] == pat@[j],
        decreases pat@.len() - i,
    {
        if s[i] != pat[i] {
            assert(s@.subrange(0, pat@.len() as int)[i as int] != pat@[i as int]);
            return false;
        }
        i = i + 1;
    }
    proof {
        assert(s@.subrange(0, pat@.len() as int) =~= pat@);
    }
    true
}

pub fn ends_with_bytes(s: &[u8], pat: &[u8]) -> (r: bool)
    ensures
        r == ends_with(s@, pat@),
{
    let n: usize = s.len();
    if pat.len() > n {
        return false;
    }
    let off: usize = n - pat.len();
    let mut i: usize = 0;
    while i < pat.len()
        invariant
            0 <= i <= pat@.len() <= s@.len(),
            n == s@.len(),
            off == s@.len() - pat@.len(),
            forall|j: int| 0 <= j < i ==> s@[off + j] == pat@[j],
        decreases pat@.len() - i,
    {
        if s[off + i] != pat[i] {
            assert(s@.subrange(s@.len() - pat@.len(), s@.len() as int)[i as int] != pat@[i as int]);
            return false;
        }
        i = i + 1;
    }
    proof {
        assert(s@.subrange(s@.len() - pat@.len(), s@.len() as int) =~= pat@);
    }
    true
}

/// `pat` occurs in `s` at exactly position `i`.
pub fn match_at_bytes(s: &[u8], pat: &[u8], i: usize) -> (r: bool)
    requires
        i + pat@.len() <= s@.len(),
    ensures
        r == match_at(s@, pat@, i as int),
{
    let n: usize = s.len();
    let mut k: usize = 0;
    while k < pat.len()
        invariant
            0 <= k <= pat@.len(),
            n == s@.len(),
            i + pat@.len() <= s@.len(),
            forall|j: int| 0 <= j < k ==> s@[i + j] == pat@[j],
        decreases pat@.len() - k,
    {
        if s[i + k] != pat[k] {
            assert(s@.subrange(i as int, i + pat@.len())[k as int] != pat@[k as int]);
            return false;
        }
        k = k + 1;
    }
    proof {
        assert(s@.subrange(i as int, i + pat@.len()) =~= pat@);
    }
    true
}

/// Position of the first occurrence of `pat` in `s`, if any.
pub fn find_bytes(s: &[u8], pat: &[u8]) -> (r: Option<usize>)
    requires
        pat@.len() >= 1,
    ensures
        match r {
            Some(i) => match_at(s@, pat@, i as int) && forall|j: int|
                0 <= j < i ==> !match_at(s@, pat@, j),
            None => !contains_seq(s@, pat@),
        },
{
    let n: usize = s.len();
    if pat.len() > n {
        return None;
    }
    let last_start: usize = n - pat.len();
    let mut i: usize = 0;
    while i <= last_start
        invariant
            0 <= i <= last_start + 1,
            n == s@.len(),
            last_start == s@.len() - pat@.len(),
            pat@.len() >= 1,
            forall|j: int| 0 <= j < i ==> !match_at(s@, pat@, j),
        decreases last_start + 1 - i,
    {
        if match_at_bytes(s, pat, i) {
            return Some(i);
        }
        i = i + 1;
    }
    assert(forall|j: int| match_at(s@, pat@, j) ==> 0 <= j <= last_start);
    None
}

pub fn contains_bytes(s: &[u8], pat: &[u8]) -> (r: bool)
    requires
        pat@.len() >= 1,
    ensures
        r == contains_seq(s@, pat@),
{
    match find_bytes(s, pat) {
        Some(_) => true,
        None => false,
    }
}

/// Index of the first non-whitespace byte, scanning from `i`.
pub open spec fn skip_ws(s: Seq<u8>, i: int) -> int
    decreases s.len() - i,
{
    if i < 0 || i >= s.len() {
        s.len() as int
    } else if is_ws(s[i]) {
        skip_ws(s, i + 1)
    } else {
        i
    }
}

/// `s` with ASCII whitespace removed from both ends.
pub open spec fn trimmed(s: Seq<u8>) -> Seq<u8>
    decreases s.len(),
{
    if s.len() == 0 {
        s
    } else if is_ws(s[0]) {
        trimmed(s.drop_first())
    } else if is_ws(s.last()) {
        trimmed(s.drop_last())
    } else {
        s
    }
}

#[verifier::rlimit(30)]
pub fn trim_bytes(s: &[u8]) -> (r: Vec<u8>)
    ensures
        r@ == trimmed(s@),
{
    proof {
        assert(s@.subrange(0, s@.len() as int) =~= s@);
    }
    let mut lo: usize = 0;
    while lo < s.len() && (s[lo] == 32 || (9 <= s[lo] && s[lo] <= 13))
        invariant
            0 <= lo <= s@.len(),
            trimmed(s@) == trimmed(s@.subrange(lo as int, s@.len() as int)),
        decreases s@.len() - lo,
    {
        proof {
            let t = s@.subrange(lo as int, s@.len() as int);
            assert(t.drop_first() =~= s@.subrange(lo + 1, s@.len() as int));
        }
        lo = lo + 1;
    }
    let mut hi: usize = s.len();
    while hi > lo && (s[hi - 1] == 32 || (9 <= s[hi - 1] && s[hi - 1] <= 13))
        invariant
            0 <= lo <= hi <= s@.len(),
            trimmed(s@) == trimmed(s@.subrange(lo as int, hi as int)),
            lo < s@.len() ==> !is_ws(s@[lo as int]),
        decreases hi,
    {
        proof {
            let t = s@.subrange(lo as int, hi as int);
            assert(t.drop_last() =~= s@.subrange(lo as int, hi - 1));
        }
        hi = hi - 1;
    }
    let mut r: Vec<u8> = Vec::new();
    let mut i: usize = lo;
    while i < hi
        invariant
            lo <= i <= hi <= s@.len(),
            r@ =~= s@.subrange(lo as int, i as int),
        decreases hi - i,
    {
        r.push(s[i]);
        i = i + 1;
    }
    proof {
        let t = s@.subrange(lo as int, hi as int);
        assert(trimmed(t) == t);
        assert(r@ =~= t);
    }
    r
}

/// Index of the end of the token starting at `i`: the first whitespace
/// byte at or after `i`, or the end of `s`.
pub open spec fn token_end(s: Seq<u8>, i: int) -> int
    decreases s.len() - i,
    when 0 <= i <= s.len()
{
    if i >= s.len() {
        i
    } else if is_ws(s[i]) {
        i
    } else {
        token_end(s, i + 1)
    }
}

proof fn lemma_token_end(s: Seq<u8>, i: int)
    requires
        0 <= i <= s.len(),
    ensures
        i <= token_end(s, i) <= s.len(),
        forall|k: int| i <= k < token_end(s, i) ==> !is_ws(#[trigger] s[k]),
        token_end(s, i) < s.len() ==> is_ws(s[token_end(s, i)]),
    decreases s.len() - i,
{
    if i < s.len() && !is_ws(s[i]) {
        lemma_token_end(s, i + 1);
    }
}

proof fn lemma_token_end_value(s: Seq<u8>, a: int, b: int)
    requires
        0 <= a <= b <= s.len(),
        forall|k: int| a <= k < b ==> !is_ws(#[trigger] s[k]),
        b == s.len() || is_ws(s[b]),
    ensures
        token_end(s, a) == b,
    decreases b - a,
{
    if a < b {
        lemma_token_end_value(s, a + 1, b);
    }
}

/// The whitespace-separated tokens of `s`, scanning from `i`.
pub open spec fn split_ws_from(s: Seq<u8>, i: int) -> Seq<Seq<u8>>
    decreases s.len() - i,
    when 0 <= i <= s.len()
    via split_ws_from_dec
{
    if i >= s.len() {
        Seq::empty()
    } else if is_ws(s[i]) {
        split_ws_from(s, i + 1)
    } else {
        seq![s.subrange(i, token_end(s, i))] + split_ws_from(s, token_end(s, i))
    }
}

#[via_fn]
proof fn split_ws_from_dec(s: Seq<u8>, i: int) {
    if 0 <= i < s.len() && !is_ws(s[i]) {
        lemma_token_end(s, i);
        assert(token_end(s, i) > i);
    }
}

/// The whitespace-separated tokens of `s`.
pub open spec fn split_ws(s: Seq<u8>) -> Seq<Seq<u8>> {
    split_ws_from(s, 0)
}

/// A fresh copy of `s[a..b]`.
pub fn copy_range(s: &[u8], a: usize, b: usize) -> (r: Vec<u8>)
    requires
        a <= b <= s@.len(),
    ensures
        r@ == s@.subrange(a as int, b as int),
{
    let mut r: Vec<u8> = Vec::new();
    let mut i: usize = a;
    while i < b
        invariant
            a <= i <= b <= s@.len(),
            r@ =~= s@.subrange(a as int, i as int),
        decreases b - i,
    {
        r.push(s[i]);
        i = i + 1;
    }
    proof {
        assert(r@ =~= s@.subrange(a as int, b as int));
    }
    r
}

/// Split `s` on ASCII whitespace, dropping empty tokens, as the kernel's
/// stat files are read.
pub fn split_ws_vec(s: &[u8]) -> (r: Vec<Vec<u8>>)
    ensures
        r.deep_view() == split_ws(s@),
{
    let n: usize = s.len();
    let mut out: Vec<Vec<u8>> = Vec::new();
    let mut i: usize = 0;
    while i < n
        invariant
            n == s@.len(),
            0 <= i <= n,
            out.deep_view() + split_ws_from(s@, i as int) =~~= split_ws(s@),
        decreases n - i,
    {
        if s[i] == 32 || (9 <= s[i] && s[i] <= 13) {
            assert(split_ws_from(s@, i as int) == split_ws_from(s@, i + 1));
            i = i + 1;
        } else {
            let start = i;
            while i < n && !(s[i] == 32 || (9 <= s[i] && s[i] <= 13))
                invariant
                    n == s@.len(),
                    start <= i <= n,
                    forall|k: int| start <= k < i ==> !is_ws(#[trigger] s@[k]),
                decreases n - i,
            {
                i = i + 1;
            }
            proof {
                lemma_token_end_value(s@, start as int, i as int);
            }
            let tok = copy_range(s, start, i);
            let ghost prev = out.deep_view();
            out.push(tok);
            proof {
                assert(out.deep_view() =~~= prev.push(tok@));
                assert(prev.push(tok@) =~~= prev + seq![s@.subrange(start as int, i as int)]);
                assert(split_ws_from(s@, start as int) == seq![
                    s@.subrange(start as int, token_end(s@, start as int)),
                ] + split_ws_from(s@, token_end(s@, start as int)));
                assert(out.deep_view() + split_ws_from(s@, i as int) =~~= split_ws(s@));
            }
        }
    }
    proof {
        assert(split_ws_from(s@, n as int) =~= Seq::<Seq<u8>>::empty());
        assert(out.deep_view() =~~= split_ws(s@));
    }
    out
}

/// Index of the next newline at or after `i`, or the end of `s`.
pub open spec fn line_end(s: Seq<u8>, i: int) -> int
    decreases s.len() - i,
    when 0 <= i <= s.len()
{
    if i >= s.len() {
        i
    } else if s[i] == 10 {
        i
    } else {
        line_end(s, i + 1)
    }
}

pub proof fn lemma_line_end(s: Seq<u8>, i: int)
    requires
        0 <= i <= s.len(),
    ensures
        i <= line_end(s, i) <= s.len(),
        forall|k: int| i <= k < line_end(s, i) ==> #[trigger] s[k] != 10,
        line_end(s, i) < s.len() ==> s[line_end(s, i)] == 10,
    decreases s.len() - i,
{
    if i < s.len() && s[i] != 10 {
        lemma_line_end(s, i + 1);
    }
}

pub proof fn lemma_line_end_value(s: Seq<u8>, a: int, b: int)
    requires
        0 <= a <= b <= s.len(),
        forall|k: int| a <= k < b ==> #[trigger] s[k] != 10,
        b == s.len() || s[b] == 10,
    ensures
        line_end(s, a) == b,
    decreases b - a,
{
    if a < b {
        lemma_line_end_value(s, a + 1, b);
    }
}

/// The segments of `s` between newline bytes, scanning from `i`. Empty
/// segments are kept, as `str::split` keeps them.
pub open spec fn split_nl_from(s: Seq<u8>, i: int) -> Seq<Seq<u8>>
    decreases s.len() - i,
    when 0 <= i <= s.len()
    via split_nl_from_dec
{
    if line_end(s, i) >= s.len() {
        seq![s.subrange(i, s.len() as int)]
    } else {
        seq![s.subrange(i, line_end(s, i))] + split_nl_from(s, line_end(s, i) + 1)
    }
}

#[via_fn]
proof fn split_nl_from_dec(s: Seq<u8>, i: int) {
    if 0 <= i <= s.len() {
        lemma_line_end(s, i);
    }
}

/// The lines of `s`: the segments between newline bytes.
pub open spec fn split_nl(s: Seq<u8>) -> Seq<Seq<u8>> {
    split_nl_from(s, 0)
}

/// Split `s` on newline bytes, keeping empty segments.
pub fn split_nl_vec(s: &[u8]) -> (r: Vec<Vec<u8>>)
    ensures
        r.deep_view() == split_nl(s@),
{
    let n: usize = s.len();
    let mut out: Vec<Vec<u8>> = Vec::new();
    let mut i: usize = 0;
    loop
        invariant
            n == s@.len(),
            0 <= i <= n,
            out.deep_view() + split_nl_from(s@, i as int) =~~= split_nl(s@),
        decreases n + 1 - i,
    {
        let start = i;
        while i < n && s[i] != 10
            invariant
                n == s@.len(),
                start <= i <= n,
                forall|k: int| start <= k < i ==> #[trigger] s@[k] != 10,
            decreases n - i,
        {
            i = i + 1;
        }
        proof {
            lemma_line_end_value(s@, start as int, i as int);
        }
        let seg = copy_range(s, start, i);
        let ghost prev = out.deep_view();
        out.push(seg);
        proof {
            assert(out.deep_view() =~~= prev.push(seg@));
        }
        if i == n {
            proof {
                assert(split_nl_from(s@, start as int) =~= seq![
                    s@.subrange(start as int, n as int),
                ]);
                assert(out.deep_view() =~~= split_nl(s@));
            }
            return out;
        }
        proof {
            assert(split_nl_from(s@, start as int) =~= seq![
                s@.subrange(start as int, i as int),
            ] + split_nl_from(s@, i + 1));
            assert(out.deep_view() + split_nl_from(s@, i + 1) =~~= split_nl(s@));
        }
        i = i + 1;
    }
}

/// The base name of a path, as bytes.
pub fn basename_bytes(s: &[u8]) -> (r: Vec<u8>)
    ensures
        r@ == basename(s@),
{
    proof {
        assert(s@.subrange(0, s@.len() as int) =~= s@);
        assert(basename(s@) + s@.subrange(s@.len() as int, s@.len() as int) =~= basename(s@));
    }
    let mut start: usize = s.len();
    while start > 0 && s[start - 1] != 47
        invariant
            0 <= start <= s@.len(),
            basename(s@) =~= basename(s@.subrange(0, start as int)) + s@.subrange(
                start as int,
                s@.len() as int,
            ),
        decreases start,
    {
        proof {
            let t = s@.subrange(0, start as int);
            assert(t.drop_last() =~= s@.subrange(0, start - 1));
            assert(basename(t) == basename(t.drop_last()).push(t.last()));
            assert(basename(t.drop_last()).push(t.last()) + s@.subrange(start as int, s@.len() as int)
                =~= basename(t.drop_last()) + s@.subrange(start - 1, s@.len() as int));
        }
        start = start - 1;
    }
    proof {
        if start > 0 {
            let t = s@.subrange(0, start as int);
            assert(t.last() == 47);
            assert(basename(t) =~= Seq::<u8>::empty());
        } else {
            assert(s@.subrange(0, 0) =~= Seq::<u8>::empty());
            assert(basename(Seq::<u8>::empty()) =~= Seq::<u8>::empty());
        }
    }
    let mut r: Vec<u8> = Vec::new();
    let mut i: usize = start;
    while i < s.len()
        invariant
            start <= i <= s@.len(),
            r@ =~= s@.subrange(start as int, i as int),
        decreases s@.len() - i,
    {
        r.push(s[i]);
        i = i + 1;
    }
    proof {
        assert(r@ =~= s@.subrange(start as int, s@.len() as int));
        assert(Seq::<u8>::empty() + s@.subrange(start as int, s@.len() as int) =~= r@);
    }
    r
}


/// The decimal digits of `n`, most significant first.
pub open spec fn dec_digits(n: nat) -> Seq<u8>
    decreases n,
{
    if n < 10 {
        seq![(48 + n) as u8]
    } else {
        dec_digits(n / 10).push((48 + n % 10) as u8)
    }
}

/// Append the decimal digits of `n`.
pub fn push_dec(out: &mut Vec<u8>, n: u64)
    ensures
        final(out)@ == old(out)@ + dec_digits(n as nat),
    decreases n,
{
    if n < 10 {
        out.push(48 + n as u8);
        proof {
            assert(out@ =~= old(out)@ + dec_digits(n as nat));
        }
    } else {
        push_dec(out, n / 10);
        out.push(48 + (n % 10) as u8);
        proof {
            assert(out@ =~= old(out)@ + dec_digits(n as nat));
        }
    }
}

/// Two zero-padded decimal digits of `m`, which is below 100.
pub open spec fn pad2(m: nat) -> Seq<u8>
    recommends
        m < 100,
{
    seq![(48 + m / 10 % 10) as u8, (48 + m % 10) as u8]
}

/// A count of hundredths rendered with two decimals: `h` = 123 gives "1.23".
pub open spec fn fixed2(h: nat) -> Seq<u8> {
    dec_digits(h / 100) + seq![46u8] + pad2(h % 100)
}

/// Append `fixed2(h)`.
#[verifier::rlimit(30)]
pub fn push_fixed2(out: &mut Vec<u8>, h: u64)
    ensures
        final(out)@ == old(out)@ + fixed2(h as nat),
{
    push_dec(out, h / 100);
    out.push(46);
    let m = h % 100;
    out.push(48 + (m / 10) as u8);
    out.push(48 + (m % 10) as u8);
    proof {
        assert(m / 10 % 10 == m / 10);
        assert(out@ =~= old(out)@ + fixed2(h as nat));
    }
}

/// `num / den` rounded to the nearest integer, ties to even, as the
/// standard fixed-precision float formatting rounds an exactly
/// representable value.
pub open spec fn round_half_even(num: nat, den: nat) -> nat
    recommends
        den > 0,
{
    let q = num / den;
    let r = num % den;
    if 2 * r > den {
        q + 1
    } else if 2 * r < den {
        q
    } else if q % 2 == 1 {
        q + 1
    } else {
        q
    }
}

pub fn round_half_even_u128(num: u128, den: u128) -> (r: u128)
    requires
        0 < den,
        num < u128::MAX / 2,
        den < u128::MAX / 2,
    ensures
        r == round_half_even(num as nat, den as nat),
{
    let q = num / den;
    let rem = num % den;
    if 2 * rem > den {
        q + 1
    } else if 2 * rem < den {
        q
    } else if q % 2 == 1 {
        q + 1
    } else {
        q
    }
}

/// A lower-case hex digit.
pub open spec fn hex_digit(d: nat) -> u8
    recommends
        d < 16,
{
    if d < 10 {
        (48 + d) as u8
    } else {
        (87 + d) as u8
    }
}

/// Two lower-case hex digits of one byte.
pub open spec fn byte_hex(b: u8) -> Seq<u8> {
    seq![hex_digit((b / 16) as nat), hex_digit((b % 16) as nat)]
}

/// The bytes of `s` in lower-case hex, two digits each.
pub open spec fn hex_of(s: Seq<u8>) -> Seq<u8>
    decreases s.len(),
{
    if s.len() == 0 {
        Seq::empty()
    } else {
        hex_of(s.drop_last()) + byte_hex(s.last())
    }
}

fn hex_digit_exec(d: u8) -> (r: u8)
    requires
        d < 16,
    ensures
        r == hex_digit(d as nat),
{
    if d < 10 {
        48 + d
    } else {
        87 + d
    }
}

/// The bytes of `s` in lower-case hex.
pub fn hex_bytes(s: &[u8]) -> (r: Vec<u8>)
    ensures
        r@ == hex_of(s@),
{
    let mut out: Vec<u8> = Vec::new();
    let mut i: usize = 0;
    proof {
        assert(s@.subrange(0, 0) =~= Seq::<u8>::empty());
        assert(hex_of(Seq::<u8>::empty()) =~= Seq::<u8>::empty());
    }
    while i < s.len()
        invariant
            0 <= i <= s@.len(),
            out@ == hex_of(s@.subrange(0, i as int)),
        decreases s@.len() - i,
    {
        let b = s[i];
        out.push(hex_digit_exec(b / 16));
        out.push(hex_digit_exec(b % 16));
        proof {
            let t = s@.subrange(0, i + 1);
            assert(t.drop_last() =~= s@.subrange(0, i as int));
            assert(t.last() == b);
            assert(out@ =~= hex_of(t.drop_last()) + byte_hex(b));
        }
        i = i + 1;
    }
    proof {
        assert(s@.subrange(0, s@.len() as int) =~= s@);
    }
    out
}

/// ASCII bytes as the characters they denote.
pub open spec fn ascii_chars(s: Seq<u8>) -> Seq<char> {
    s.map_values(|b: u8| b as char)
}

/// Relies on `String::from_utf8`: it accepts exactly the valid UTF-8
/// byte strings and decodes them to their characters.
#[verifier::external_body]
pub(crate) fn utf8_to_string(v: Vec<u8>) -> (r: Option<String>)
    ensures
        match r {
            Some(s) => vstd::utf8::valid_utf8(v@) && s@ == vstd::utf8::decode_utf8(v@),
            None => !vstd::utf8::valid_utf8(v@),
        },
{
    match String::from_utf8(v) {
        Ok(s) => Some(s),
        Err(_) => None,
    }
}

/// ASCII bytes are their own UTF-8 encoding, one byte per character.
proof fn lemma_ascii_encode(v: Seq<u8>)
    requires
        forall|i: int| 0 <= i < v.len() ==> v[i] < 128,
    ensures
        vstd::utf8::encode_utf8(ascii_chars(v)) == v,
        vstd::utf8::valid_utf8(v),
        vstd::utf8::decode_utf8(v) == ascii_chars(v),
    decreases v.len(),
{
    let chars = ascii_chars(v);
    if v.len() == 0 {
        assert(vstd::utf8::encode_utf8(chars) =~= v);
    } else {
        let tail = v.drop_first();
        assert(forall|i: int| 0 <= i < tail.len() ==> tail[i] < 128);
        lemma_ascii_encode(tail);
        assert(ascii_chars(tail) =~= chars.drop_first());
        let b = v[0];
        let scalar = chars[0] as u32;
        assert(scalar == b);
        assert(vstd::utf8::has_width_1_encoding(scalar));
        assert((scalar & 0x7F) == scalar) by (bit_vector)
            requires
                scalar < 128,
        ;
        assert(vstd::utf8::leading_byte_width_1(scalar) == b);
        assert(vstd::utf8::encode_scalar(scalar) =~= seq![b]);
        assert(vstd::utf8::encode_utf8(chars) == vstd::utf8::encode_scalar(scalar)
            + vstd::utf8::encode_utf8(chars.drop_first()));
        assert(vstd::utf8::encode_utf8(chars) =~= v);
    }
    vstd::utf8::encode_utf8_valid_utf8(chars);
    vstd::utf8::encode_utf8_decode_utf8(chars);
}

/// A `String` of the given ASCII bytes, one character each.
pub fn ascii_to_string(v: Vec<u8>) -> (r: String)
    requires
        forall|i: int| 0 <= i < v@.len() ==> v@[i] < 128,
    ensures
        r@ == ascii_chars(v@),
{
    proof {
        lemma_ascii_encode(v@);
    }
    match utf8_to_string(v) {
        Some(s) => s,
        None => {
            proof {
                assert(false);
            }
            String::new()
        },
    }
}

} // verus!
