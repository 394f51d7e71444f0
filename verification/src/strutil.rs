use vstd::prelude::*;

verus! {

// ---------------------------------------------------------------------------
// Character-level helpers over string views (`Seq<char>`).
// ---------------------------------------------------------------------------

/// Relies on std's String::push: appends the given char to the end of the string.
#[verifier::external_body]
pub fn push_char(s: &mut String, c: char)
    ensures
        final(s)@ == old(s)@.push(c),
{
    s.push(c)
}

/// A character-for-character equality test on string slices.
pub fn str_eq(a: &str, b: &str) -> (r: bool)
    ensures
        r == (a@ == b@),
{
    let x = a.to_owned();
    let y = b.to_owned();
    x == y
}

pub open spec fn seq_contains_char(s: Seq<char>, c: char) -> bool {
    exists|i: int| 0 <= i < s.len() && s[i] == c
}

pub fn contains_char(s: &str, c: char) -> (r: bool)
    ensures
        r == seq_contains_char(s@, c),
{
    let n = s.unicode_len();
    let mut i: usize = 0;
    while i < n
        invariant
            n == s@.len(),
            0 <= i <= n,
            forall|j: int| 0 <= j < i ==> s@[j] != c,
        decreases n - i,
    {
        if s.get_char(i) == c {
            return true;
        }
        i = i + 1;
    }
    false
}

/// `p` occurs in `s` starting at offset `i`.
pub open spec fn matches_at(s: Seq<char>, p: Seq<char>, i: int) -> bool {
    0 <= i && i + p.len() <= s.len() && s.subrange(i, i + p.len() as int) == p
}

pub open spec fn seq_contains_seq(s: Seq<char>, p: Seq<char>) -> bool {
    exists|i: int| matches_at(s, p, i)
}

pub open spec fn seq_starts_with(s: Seq<char>, p: Seq<char>) -> bool {
    matches_at(s, p, 0)
}

pub open spec fn seq_ends_with(s: Seq<char>, p: Seq<char>) -> bool {
    matches_at(s, p, s.len() - p.len())
}

fn matches_at_exec(s: &str, p: &str, i: usize) -> (r: bool)
    requires
        s@.len() <= usize::MAX,
        i + p@.len() <= s@.len(),
    ensures
        r == matches_at(s@, p@, i as int),
{
    let m = p.unicode_len();
    let mut j: usize = 0;
    while j < m
        invariant
            m == p@.len(),
            s@.len() <= usize::MAX,
            i + m <= s@.len(),
            0 <= j <= m,
            forall|k: int| 0 <= k < j ==> s@[i + k] == p@[k],
        decreases m - j,
    {
        if s.get_char(i + j) != p.get_char(j) {
            assert(s@.subrange(i as int, i + p@.len() as int)[j as int] != p@[j as int]);
            return false;
        }
        j = j + 1;
    }
    assert(s@.subrange(i as int, i + p@.len() as int) =~= p@);
    true
}

pub fn contains_str(s: &str, p: &str) -> (r: bool)
    ensures
        r == seq_contains_seq(s@, p@),
{
    let n = s.unicode_len();
    let m = p.unicode_len();
    if m > n {
        assert(forall|i: int| !matches_at(s@, p@, i));
        return false;
    }
    if m == 0 {
        assert(s@.subrange(0, 0) =~= p@);
        assert(matches_at(s@, p@, 0));
        return true;
    }
    let mut i: usize = 0;
    while i <= n - m
        invariant
            n == s@.len(),
            m == p@.len(),
            1 <= m <= n,
            0 <= i <= n - m + 1,
            forall|j: int| 0 <= j < i ==> !matches_at(s@, p@, j),
        decreases n - i,
    {
        if matches_at_exec(s, p, i) {
            return true;
        }
        i = i + 1;
    }
    assert(forall|j: int| matches_at(s@, p@, j) ==> 0 <= j <= n - m);
    false
}

pub fn starts_with(s: &str, p: &str) -> (r: bool)
    ensures
        r == seq_starts_with(s@, p@),
{
    let n = s.unicode_len();
    let m = p.unicode_len();
    if m > n {
        return false;
    }
    matches_at_exec(s, p, 0)
}

pub fn ends_with(s: &str, p: &str) -> (r: bool)
    ensures
        r == seq_ends_with(s@, p@),
{
    let n = s.unicode_len();
    let m = p.unicode_len();
    if m > n {
        return false;
    }
    matches_at_exec(s, p, n - m)
}

// ---------------------------------------------------------------------------
// ASCII classification and case mapping.
// ---------------------------------------------------------------------------

pub open spec fn is_ascii_upper(c: char) -> bool {
    'A' <= c && c <= 'Z'
}

pub open spec fn is_ascii_lower_char(c: char) -> bool {
    'a' <= c && c <= 'z'
}

pub open spec fn is_ascii_digit(c: char) -> bool {
    '0' <= c && c <= '9'
}

pub open spec fn is_ident_char(c: char) -> bool {
    is_ascii_upper(c) || is_ascii_lower_char(c) || is_ascii_digit(c) || c == '_'
}

pub open spec fn is_space_char(c: char) -> bool {
    c == ' ' || c == '\t' || c == '\n' || c == '\r'
}

pub open spec fn lower_char(c: char) -> char {
    if is_ascii_upper(c) {
        (((c as u8) + 32) as char)
    } else {
        c
    }
}

pub open spec fn lower_seq(s: Seq<char>) -> Seq<char> {
    s.map_values(|c: char| lower_char(c))
}

fn lower_char_exec(c: char) -> (r: char)
    ensures
        r == lower_char(c),
{
    if 'A' <= c && c <= 'Z' {
        assert(c as u32 <= 90 && c as u8 == c as u32);
        (((c as u8) + 32) as char)
    } else {
        c
    }
}

/// Lower-case the ASCII letters of a string; other characters are unchanged.
/// Case folding here is deliberately ASCII-only: queries and identifiers in
/// non-ASCII scripts are matched as written.
pub fn to_ascii_lower(s: &str) -> (r: String)
    ensures
        r@ == lower_seq(s@),
{
    let n = s.unicode_len();
    let mut out = String::new();
    let mut i: usize = 0;
    while i < n
        invariant
            n == s@.len(),
            0 <= i <= n,
            out@ == lower_seq(s@.subrange(0, i as int)),
        decreases n - i,
    {
        let c = lower_char_exec(s.get_char(i));
        push_char(&mut out, c);
        assert(lower_seq(s@.subrange(0, i + 1)) =~= lower_seq(s@.subrange(0, i as int)).push(
            lower_char(s@[i as int]),
        ));
        i = i + 1;
    }
    assert(s@.subrange(0, n as int) =~= s@);
    out
}

// ---------------------------------------------------------------------------
// Trimming and splitting on ASCII whitespace.
// ---------------------------------------------------------------------------

/// The substring of `s` with leading and trailing whitespace removed.
pub open spec fn trimmed(s: Seq<char>) -> Seq<char>
    decreases s.len(),
{
    if s.len() == 0 {
        s
    } else if is_space_char(s[0]) {
        trimmed(s.drop_first())
    } else if is_space_char(s[s.len() - 1]) {
        trimmed(s.drop_last())
    } else {
        s
    }
}

fn is_space_exec(c: char) -> (r: bool)
    ensures
        r == is_space_char(c),
{
    c == ' ' || c == '\t' || c == '\n' || c == '\r'
}

pub fn trim_spaces(s: &str) -> (r: String)
    ensures
        r@ == trimmed(s@),
{
    let n = s.unicode_len();
    let mut lo: usize = 0;
    while lo < n && is_space_exec(s.get_char(lo))
        invariant
            n == s@.len(),
            0 <= lo <= n,
            forall|j: int| 0 <= j < lo ==> is_space_char(s@[j]),
        decreases n - lo,
    {
        lo = lo + 1;
    }
    let mut hi: usize = n;
    while hi > lo && is_space_exec(s.get_char(hi - 1))
        invariant
            n == s@.len(),
            0 <= lo <= hi <= n,
            forall|j: int| 0 <= j < lo ==> is_space_char(s@[j]),
            forall|j: int| hi <= j < n ==> is_space_char(s@[j]),
            lo < n ==> !is_space_char(s@[lo as int]),
            lo < n ==> lo < hi,
        decreases hi,
    {
        hi = hi - 1;
    }
    let mut out = String::new();
    let mut i: usize = lo;
    while i < hi
        invariant
            n == s@.len(),
            lo <= i <= hi <= n,
            out@ == s@.subrange(lo as int, i as int),
        decreases hi - i,
    {
        push_char(&mut out, s.get_char(i));
        assert(s@.subrange(lo as int, i + 1) =~= s@.subrange(lo as int, i as int).push(
            s@[i as int],
        ));
        i = i + 1;
    }
    proof {
        if lo == hi && lo < n {
            assert(!is_space_char(s@[lo as int]));
        }
        lemma_trimmed_window(s@, lo as int, hi as int);
    }
    out
}

proof fn lemma_trimmed_window(s: Seq<char>, lo: int, hi: int)
    requires
        0 <= lo <= hi <= s.len(),
        forall|j: int| 0 <= j < lo ==> is_space_char(s[j]),
        forall|j: int| hi <= j < s.len() ==> is_space_char(s[j]),
        lo < hi ==> !is_space_char(s[lo]) && !is_space_char(s[hi - 1]),
        lo == hi ==> lo == s.len(),
    ensures
        trimmed(s) == s.subrange(lo, hi),
    decreases s.len(),
{
    if s.len() == 0 {
        assert(trimmed(s) =~= s.subrange(lo, hi));
    } else if is_space_char(s[0]) {
        assert(lo >= 1);
        let t = s.drop_first();
        assert(forall|j: int| 0 <= j < lo - 1 ==> t[j] == s[j + 1] && is_space_char(s[j + 1]));
        assert(forall|j: int| hi - 1 <= j < t.len() ==> t[j] == s[j + 1] && is_space_char(s[j + 1]));
        lemma_trimmed_window(t, lo - 1, hi - 1);
        assert(t.subrange(lo - 1, hi - 1) =~= s.subrange(lo, hi));
    } else if is_space_char(s[s.len() - 1]) {
        assert(lo < hi);
        assert(hi <= s.len() - 1);
        let t = s.drop_last();
        assert(forall|j: int| hi <= j < t.len() ==> t[j] == s[j] && is_space_char(s[j]));
        lemma_trimmed_window(t, lo, hi);
        assert(t.subrange(lo, hi) =~= s.subrange(lo, hi));
    } else {
        assert(lo == 0 && hi == s.len());
        assert(trimmed(s) =~= s.subrange(lo, hi));
    }
}

/// Index of the first whitespace character of `s` (or `s.len()` when none).
pub open spec fn first_space(s: Seq<char>) -> int
    decreases s.len(),
{
    if s.len() == 0 {
        0
    } else if is_space_char(s[0]) {
        0
    } else {
        1 + first_space(s.drop_first())
    }
}

proof fn lemma_first_space(s: Seq<char>)
    ensures
        0 <= first_space(s) <= s.len(),
        forall|j: int| 0 <= j < first_space(s) ==> !is_space_char(s[j]),
        first_space(s) < s.len() ==> is_space_char(s[first_space(s)]),
    decreases s.len(),
{
    if s.len() != 0 && !is_space_char(s[0]) {
        lemma_first_space(s.drop_first());
        assert forall|j: int| 0 <= j < first_space(s) implies !is_space_char(s[j]) by {
            if j >= 1 {
                assert(s[j] == s.drop_first()[j - 1]);
            }
        }
        if first_space(s) < s.len() {
            assert(s[first_space(s)] == s.drop_first()[first_space(s.drop_first())]);
        }
    }
}

/// The maximal whitespace-free words of `s`, in order.
pub open spec fn words_of(s: Seq<char>) -> Seq<Seq<char>>
    decreases s.len(),
    via words_of_dec
{
    if s.len() == 0 {
        Seq::empty()
    } else if is_space_char(s[0]) {
        words_of(s.drop_first())
    } else {
        let k = first_space(s);
        Seq::empty().push(s.subrange(0, k)) + words_of(s.subrange(k, s.len() as int))
    }
}

#[via_fn]
proof fn words_of_dec(s: Seq<char>) {
    if s.len() != 0 && !is_space_char(s[0]) {
        lemma_first_space(s);
        assert(first_space(s) >= 1);
    }
}

proof fn lemma_first_space_window(s: Seq<char>, j: int)
    requires
        0 <= j <= s.len(),
        forall|k: int| 0 <= k < j ==> !is_space_char(s[k]),
        j < s.len() ==> is_space_char(s[j]),
    ensures
        first_space(s) == j,
{
    lemma_first_space(s);
    if first_space(s) < j {
        assert(is_space_char(s[first_space(s)]));
    } else if first_space(s) > j {
        assert(!is_space_char(s[j]));
    }
}

/// Split a string into its ASCII-whitespace-separated words.
pub fn split_words(s: &str) -> (r: Vec<String>)
    ensures
        r@.map_values(|w: String| w@) == words_of(s@),
{
    let n = s.unicode_len();
    let mut out: Vec<String> = Vec::new();
    proof {
        assert(s@.subrange(0, n as int) =~= s@);
        assert(out@.map_values(|w: String| w@) =~= Seq::<Seq<char>>::empty());
        assert(Seq::<Seq<char>>::empty() + words_of(s@) =~= words_of(s@));
    }
    let mut i: usize = 0;
    while i < n
        invariant
            n == s@.len(),
            0 <= i <= n,
            out@.map_values(|w: String| w@) + words_of(s@.subrange(i as int, n as int)) =~= words_of(
                s@,
            ),
        decreases n - i,
    {
        if is_space_exec(s.get_char(i)) {
            assert(s@.subrange(i as int, n as int).drop_first() =~= s@.subrange(i + 1, n as int));
            i = i + 1;
        } else {
            let ghost rest = s@.subrange(i as int, n as int);
            let mut j: usize = i + 1;
            while j < n && !is_space_exec(s.get_char(j))
                invariant
                    n == s@.len(),
                    0 <= i < j <= n,
                    forall|k: int| i <= k < j ==> !is_space_char(s@[k]),
                decreases n - j,
            {
                j = j + 1;
            }
            proof {
                assert(forall|k: int|
                    0 <= k < j - i ==> rest[k] == s@[i + k] && !is_space_char(s@[i + k]));
                if j < n {
                    assert(rest[(j - i) as int] == s@[j as int]);
                }
                lemma_first_space_window(rest, (j - i) as int);
            }
            let mut w = String::new();
            let mut k: usize = i;
            while k < j
                invariant
                    n == s@.len(),
                    i <= k <= j <= n,
                    w@ == s@.subrange(i as int, k as int),
                decreases j - k,
            {
                push_char(&mut w, s.get_char(k));
                assert(s@.subrange(i as int, k + 1) =~= s@.subrange(i as int, k as int).push(
                    s@[k as int],
                ));
                k = k + 1;
            }
            assert(rest.subrange(0, (j - i) as int) =~= s@.subrange(i as int, j as int));
            assert(rest.subrange((j - i) as int, rest.len() as int) =~= s@.subrange(
                j as int,
                n as int,
            ));
            let ghost old_out = out@;
            out.push(w);
            proof {
                assert(out@.map_values(|w: String| w@) =~= old_out.map_values(|w: String| w@).push(
                    s@.subrange(i as int, j as int),
                ));
                assert(words_of(rest) == Seq::empty().push(s@.subrange(i as int, j as int))
                    + words_of(s@.subrange(j as int, n as int)));
                assert(out@.map_values(|w: String| w@) + words_of(s@.subrange(j as int, n as int))
                    =~= old_out.map_values(|w: String| w@) + words_of(rest));
            }
            i = j;
        }
    }
    assert(words_of(s@.subrange(n as int, n as int)) =~= Seq::<Seq<char>>::empty());
    assert(out@.map_values(|w: String| w@) =~= out@.map_values(|w: String| w@) + Seq::<
        Seq<char>,
    >::empty());
    out
}

// ---------------------------------------------------------------------------
// Decimal and hexadecimal rendering of integers.
// ---------------------------------------------------------------------------

pub open spec fn dec_digit(d: int) -> char {
    (('0' as u8) + d as u8) as char
}

/// The usual base-10 rendering of a natural number, most significant digit first.
pub open spec fn dec_chars(n: nat) -> Seq<char>
    decreases n,
{
    if n < 10 {
        seq![dec_digit(n as int)]
    } else {
        dec_chars(n / 10) + seq![dec_digit((n % 10) as int)]
    }
}

pub fn u64_to_dec(n: u64) -> (r: String)
    ensures
        r@ == dec_chars(n as nat),
{
    let mut rev: Vec<char> = Vec::new();
    let mut m: u64 = n;
    loop
        invariant_except_break
            m > 0 || rev@.len() == 0,
            rev@.len() == 0 ==> m == n,
            m > 0 ==> dec_chars(n as nat) == dec_chars(m as nat) + rev@.reverse(),
            m == 0 ==> n == 0,
        ensures
            dec_chars(n as nat) == rev@.reverse(),
        decreases m,
    {
        let ghost prev = rev@;
        let ghost m0 = m as nat;
        let d: u8 = (m % 10) as u8;
        assert(d < 10 && ('0' as u8) + d <= 57);
        rev.push((('0' as u8) + d) as char);
        assert((('0' as u8) + d) as char == dec_digit((m0 % 10) as int));
        m = m / 10;
        proof {
            assert(rev@.reverse() =~= seq![dec_digit((m0 % 10) as int)] + prev.reverse());
            if m0 >= 10 {
                assert(dec_chars(m0) == dec_chars(m0 / 10) + seq![dec_digit((m0 % 10) as int)]);
                assert(dec_chars(m0) + prev.reverse() =~= dec_chars(m0 / 10) + rev@.reverse());
            } else if m0 > 0 {
                assert(dec_chars(m0) + prev.reverse() =~= rev@.reverse());
            } else {
                assert(dec_chars(n as nat) =~= rev@.reverse());
            }
        }
        if m == 0 {
            break;
        }
    }
    let mut out = String::new();
    let mut i: usize = rev.len();
    while i > 0
        invariant
            out@ == rev@.subrange(i as int, rev@.len() as int).reverse(),
            i <= rev@.len(),
            dec_chars(n as nat) == rev@.reverse(),
        decreases i,
    {
        i = i - 1;
        push_char(&mut out, rev[i]);
        assert(rev@.subrange(i as int, rev@.len() as int).reverse() =~= rev@.subrange(
            i + 1,
            rev@.len() as int,
        ).reverse().push(rev@[i as int]));
    }
    assert(rev@.subrange(0, rev@.len() as int) =~= rev@);
    out
}

/// Base-10 rendering of a signed number: a minus sign, then the digits.
pub open spec fn dec_chars_i64(n: int) -> Seq<char> {
    if n < 0 {
        seq!['-'] + dec_chars((-n) as nat)
    } else {
        dec_chars(n as nat)
    }
}

pub fn i64_to_dec(n: i64) -> (r: String)
    ensures
        r@ == dec_chars_i64(n as int),
{
    if n >= 0 {
        u64_to_dec(n as u64)
    } else {
        let mag: u64 = if n == i64::MIN {
            9223372036854775808u64
        } else {
            (-n) as u64
        };
        let mut out = String::new();
        push_char(&mut out, '-');
        let digits = u64_to_dec(mag);
        out.append(digits.as_str());
        assert(out@ =~= seq!['-'] + dec_chars(mag as nat));
        out
    }
}

pub open spec fn hex_digit(d: int) -> char {
    if d < 10 {
        (('0' as u8) + d as u8) as char
    } else {
        (('a' as u8) + (d - 10) as u8) as char
    }
}

/// 16 hex digits, most significant nibble first.
pub open spec fn hex16_chars(n: u64) -> Seq<char> {
    Seq::new(16, |i: int| hex_digit(((n >> ((15 - i) * 4) as u64) & 0xf) as int))
}

/// Render a 64-bit value as a fixed-width, 16-digit lower-case hex string.
pub fn u64_to_hex16(n: u64) -> (r: String)
    ensures
        r@ == hex16_chars(n),
        r@.len() == 16,
{
    let mut out = String::new();
    let mut i: usize = 0;
    while i < 16
        invariant
            0 <= i <= 16,
            out@ =~= hex16_chars(n).subrange(0, i as int),
        decreases 16 - i,
    {
        let shift: u64 = ((15 - i) * 4) as u64;
        let nib: u64 = (n >> shift) & 0xf;
        assert((n >> shift) & 0xf < 16) by (bit_vector);
        let c: char = if nib < 10 {
            assert(('0' as u8) + (nib as u8) <= 57);
            (('0' as u8) + (nib as u8)) as char
        } else {
            assert(('a' as u8) + ((nib - 10) as u8) <= 102);
            (('a' as u8) + ((nib - 10) as u8)) as char
        };
        assert(c == hex_digit(nib as int));
        push_char(&mut out, c);
        assert(out@ =~= hex16_chars(n).subrange(0, i + 1));
        i = i + 1;
    }
    assert(hex16_chars(n).subrange(0, 16) =~= hex16_chars(n));
    out
}

// ---------------------------------------------------------------------------
// Lexicographic comparison (by unicode scalar value).
// ---------------------------------------------------------------------------

/// Strict lexicographic order on character sequences.
pub open spec fn seq_lt(a: Seq<char>, b: Seq<char>) -> bool
    decreases a.len(),
{
    if b.len() == 0 {
        false
    } else if a.len() == 0 {
        true
    } else if a[0] != b[0] {
        (a[0] as u32) < (b[0] as u32)
    } else {
        seq_lt(a.drop_first(), b.drop_first())
    }
}

pub open spec fn seq_le(a: Seq<char>, b: Seq<char>) -> bool {
    seq_lt(a, b) || a == b
}

/// Is `a` strictly before `b` in lexicographic order?
pub fn str_lt(a: &str, b: &str) -> (r: bool)
    ensures
        r == seq_lt(a@, b@),
{
    let an = a.unicode_len();
    let bn = b.unicode_len();
    proof {
        assert(a@.subrange(0, an as int) =~= a@);
        assert(b@.subrange(0, bn as int) =~= b@);
    }
    let mut i: usize = 0;
    loop
        invariant
            an == a@.len(),
            bn == b@.len(),
            0 <= i <= an,
            0 <= i <= bn,
            seq_lt(a@, b@) == seq_lt(
                a@.subrange(i as int, an as int),
                b@.subrange(i as int, bn as int),
            ),
        decreases an - i,
    {
        if i >= bn {
            assert(b@.subrange(i as int, bn as int).len() == 0);
            return false;
        }
        if i >= an {
            assert(a@.subrange(i as int, an as int).len() == 0);
            assert(b@.subrange(i as int, bn as int).len() != 0);
            return true;
        }
        let ca = a.get_char(i);
        let cb = b.get_char(i);
        assert(a@.subrange(i as int, an as int)[0] == a@[i as int]);
        assert(b@.subrange(i as int, bn as int)[0] == b@[i as int]);
        if ca != cb {
            return (ca as u32) < (cb as u32);
        }
        assert(a@.subrange(i as int, an as int).drop_first() =~= a@.subrange(i + 1, an as int));
        assert(b@.subrange(i as int, bn as int).drop_first() =~= b@.subrange(i + 1, bn as int));
        i = i + 1;
    }
}

pub fn str_le(a: &str, b: &str) -> (r: bool)
    ensures
        r == seq_le(a@, b@),
{
    if str_eq(a, b) {
        true
    } else {
        str_lt(a, b)
    }
}

} // verus!
