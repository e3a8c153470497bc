//! Character-level string helpers: equality, lexicographic order, and the
//! lowercase conversion of the standard library.
use vstd::prelude::*;

verus! {

/// Index of the first position where `a` and `b` differ, scanning from `i`
/// (or the end of the shorter one).
pub open spec fn diff_from(a: Seq<char>, b: Seq<char>, i: int) -> int
    decreases a.len() - i,
{
    if i < 0 || i >= a.len() || i >= b.len() || a[i] != b[i] {
        i
    } else {
        diff_from(a, b, i + 1)
    }
}

/// Length of the longest common prefix of `a` and `b`.
pub open spec fn first_diff(a: Seq<char>, b: Seq<char>) -> int {
    diff_from(a, b, 0)
}

/// Strict lexicographic order on character sequences, comparing code points.
/// This is the order of `String`/`str` in Rust (UTF-8 byte order and code
/// point order agree).
pub open spec fn lex_lt(a: Seq<char>, b: Seq<char>) -> bool {
    let k = first_diff(a, b);
    (k == a.len() && k < b.len()) || (k < a.len() && k < b.len() && (a[k] as int) < (b[k] as int))
}

/// What `diff_from` returns: a position where the texts differ or one ends,
/// with equal characters before it.
pub proof fn lemma_diff_from(a: Seq<char>, b: Seq<char>, i: int)
    requires
        0 <= i <= a.len(),
        i <= b.len(),
    ensures
        i <= diff_from(a, b, i) <= a.len(),
        diff_from(a, b, i) <= b.len(),
        forall|j: int| i <= j < diff_from(a, b, i) ==> a[j] == b[j],
        diff_from(a, b, i) < a.len() && diff_from(a, b, i) < b.len() ==> a[diff_from(a, b, i)]
            != b[diff_from(a, b, i)],
    decreases a.len() - i,
{
    if i < a.len() && i < b.len() && a[i] == b[i] {
        lemma_diff_from(a, b, i + 1);
    }
}

/// Characterisation of `first_diff`.
pub proof fn lemma_first_diff(a: Seq<char>, b: Seq<char>)
    ensures
        0 <= first_diff(a, b) <= a.len(),
        first_diff(a, b) <= b.len(),
        forall|j: int| 0 <= j < first_diff(a, b) ==> a[j] == b[j],
        first_diff(a, b) < a.len() && first_diff(a, b) < b.len() ==> a[first_diff(a, b)]
            != b[first_diff(a, b)],
{
    lemma_diff_from(a, b, 0);
}

/// `first_diff` is determined by the common prefix and the first mismatch.
pub proof fn lemma_first_diff_is(a: Seq<char>, b: Seq<char>, k: int)
    requires
        0 <= k <= a.len(),
        k <= b.len(),
        forall|j: int| 0 <= j < k ==> a[j] == b[j],
        k == a.len() || k == b.len() || a[k] != b[k],
    ensures
        first_diff(a, b) == k,
{
    lemma_first_diff(a, b);
    let f = first_diff(a, b);
    if f < k {
        assert(a[f] == b[f]);
    }
}

/// The first difference does not depend on the order of the texts.
pub proof fn lemma_first_diff_symmetric(a: Seq<char>, b: Seq<char>)
    ensures
        first_diff(a, b) == first_diff(b, a),
{
    lemma_first_diff(a, b);
    lemma_first_diff_is(b, a, first_diff(a, b));
}

/// No text comes before itself.
pub proof fn lemma_lex_irreflexive(a: Seq<char>)
    ensures
        !lex_lt(a, a),
{
    lemma_first_diff(a, a);
    lemma_first_diff_is(a, a, a.len() as int);
}

/// Of two texts at most one comes before the other.
pub proof fn lemma_lex_asymmetric(a: Seq<char>, b: Seq<char>)
    ensures
        !(lex_lt(a, b) && lex_lt(b, a)),
{
    lemma_first_diff_symmetric(a, b);
    lemma_first_diff(a, b);
}

/// Of two different texts one comes before the other.
pub proof fn lemma_lex_total(a: Seq<char>, b: Seq<char>)
    ensures
        lex_lt(a, b) || lex_lt(b, a) || a == b,
{
    lemma_first_diff_symmetric(a, b);
    lemma_first_diff(a, b);
    let k = first_diff(a, b);
    if k == a.len() && k == b.len() {
        assert(a =~= b);
    } else if k < a.len() && k < b.len() {
        assert((a[k] as int) != (b[k] as int));
    }
}

/// Coming before is transitive.
pub proof fn lemma_lex_transitive(a: Seq<char>, b: Seq<char>, c: Seq<char>)
    requires
        lex_lt(a, b),
        lex_lt(b, c),
    ensures
        lex_lt(a, c),
{
    lemma_first_diff(a, b);
    lemma_first_diff(b, c);
    lemma_first_diff(a, c);
    let k1 = first_diff(a, b);
    let k2 = first_diff(b, c);
    if k1 < k2 {
        lemma_first_diff_is(a, c, k1);
    } else if k2 < k1 {
        lemma_first_diff_is(a, c, k2);
    } else {
        if k1 < a.len() {
            assert((a[k1] as int) != (c[k1] as int));
        }
        lemma_first_diff_is(a, c, k1);
    }
}

/// Character-wise equality of two string slices.
pub fn str_equals(a: &str, b: &str) -> (r: bool)
    ensures
        r == (a@ == b@),
{
    let la = a.unicode_len();
    let lb = b.unicode_len();
    if la != lb {
        return false;
    }
    let mut i: usize = 0;
    while i < la
        invariant
            la == a@.len(),
            lb == b@.len(),
            la == lb,
            i <= la,
            forall|j: int| 0 <= j < i ==> a@[j] == b@[j],
        decreases la - i,
    {
        if a.get_char(i) != b.get_char(i) {
            return false;
        }
        i = i + 1;
    }
    assert(a@ =~= b@);
    true
}

/// Strict lexicographic comparison of two string slices (`a < b`).
pub fn str_less(a: &str, b: &str) -> (r: bool)
    ensures
        r == lex_lt(a@, b@),
{
    let la = a.unicode_len();
    let lb = b.unicode_len();
    let mut i: usize = 0;
    while i < la && i < lb && a.get_char(i) == b.get_char(i)
        invariant
            la == a@.len(),
            lb == b@.len(),
            i <= la,
            i <= lb,
            forall|j: int| 0 <= j < i ==> a@[j] == b@[j],
        decreases la - i,
    {
        i = i + 1;
    }
    proof {
        lemma_first_diff_is(a@, b@, i as int);
    }
    if i == la {
        i < lb
    } else if i == lb {
        false
    } else {
        a.get_char(i) < b.get_char(i)
    }
}

/// What `str::to_lowercase` returns for a character sequence (Unicode
/// lowercase mapping; not stated further here).
pub uninterp spec fn lowercase_of(s: Seq<char>) -> Seq<char>;

/// The ASCII lowercase of a character: `A`..`Z` become `a`..`z`, every other
/// character stays.
pub open spec fn ascii_lower(c: char) -> char {
    if 'A' <= c && c <= 'Z' {
        ((c as u32) + 32) as char
    } else {
        c
    }
}

/// Every character is ASCII.
pub open spec fn all_ascii(s: Seq<char>) -> bool {
    forall|i: int| 0 <= i < s.len() ==> (#[trigger] s[i] as u32) < 128
}

/// `str::to_lowercase`. Trusted: the result is the standard library's
/// Unicode lowercase of `s`, named `lowercase_of`; on ASCII text it is the
/// character-wise ASCII lowercase (the documented Unicode mapping lowers
/// `A`..`Z` and keeps the other ASCII characters). Nothing is claimed of
/// other text.
#[verifier::external_body]
pub(crate) fn to_lowercase(s: &str) -> (r: String)
    ensures
        r@ == lowercase_of(s@),
        all_ascii(s@) ==> r@ == s@.map_values(|c: char| ascii_lower(c)),
{
    s.to_lowercase()
}

/// Appends the characters of `t` to `s`.
pub fn push_str(s: &mut String, t: &str)
    ensures
        final(s)@ == old(s)@ + t@,
{
    let n = t.unicode_len();
    let mut i: usize = 0;
    while i < n
        invariant
            n == t@.len(),
            i <= n,
            s@ == old(s)@ + t@.subrange(0, i as int),
        decreases n - i,
    {
        let c = t.get_char(i);
        push_char(s, c);
        proof {
            assert(t@.subrange(0, i + 1) =~= t@.subrange(0, i as int).push(c));
        }
        i = i + 1;
    }
    proof {
        assert(t@.subrange(0, n as int) =~= t@);
    }
}


/// The decimal digit for `d` (`0..=9`).
pub open spec fn digit_char(d: int) -> char {
    if d == 0 { '0' } else if d == 1 { '1' } else if d == 2 { '2' } else if d == 3 { '3' }
    else if d == 4 { '4' } else if d == 5 { '5' } else if d == 6 { '6' } else if d == 7 { '7' }
    else if d == 8 { '8' } else { '9' }
}

/// Decimal representation of `n` without leading zeros (`format!("{}", n)`).
pub open spec fn decimal(n: nat) -> Seq<char>
    decreases n,
{
    if n < 10 {
        seq![digit_char(n as int)]
    } else {
        decimal(n / 10).push(digit_char((n % 10) as int))
    }
}

/// `format!("{:02}", n)`: at least two digits, left-padded with `0`.
pub open spec fn decimal2(n: nat) -> Seq<char> {
    if n < 10 {
        seq!['0', digit_char(n as int)]
    } else {
        decimal(n)
    }
}

/// `format!("{}", n)` for a signed number.
pub open spec fn signed_decimal(n: int) -> Seq<char> {
    if n < 0 {
        seq!['-'] + decimal((-n) as nat)
    } else {
        decimal(n as nat)
    }
}

fn digit(d: u64) -> (c: char)
    requires
        d < 10,
    ensures
        c == digit_char(d as int),
{
    if d == 0 { '0' } else if d == 1 { '1' } else if d == 2 { '2' } else if d == 3 { '3' }
    else if d == 4 { '4' } else if d == 5 { '5' } else if d == 6 { '6' } else if d == 7 { '7' }
    else if d == 8 { '8' } else { '9' }
}

/// Appends `c` to `s`. Trusted: `String::push`, which appends the character
/// at the end.
#[verifier::external_body]
pub(crate) fn push_char(s: &mut String, c: char)
    ensures
        final(s)@ == old(s)@.push(c),
{
    s.push(c)
}

/// Appends the decimal representation of `n` to `s`.
pub fn push_decimal(s: &mut String, n: u64)
    ensures
        final(s)@ == old(s)@ + decimal(n as nat),
    decreases n,
{
    if n >= 10 {
        push_decimal(s, n / 10);
    }
    push_char(s, digit(n % 10));
    proof {
        if n >= 10 {
            assert(decimal(n as nat) == decimal((n / 10) as nat).push(digit_char((n % 10) as int)));
        }
    }
}

/// `format!("{}", n)` for an `i64`.
pub fn signed_to_string(n: i64) -> (r: String)
    ensures
        r@ == signed_decimal(n as int),
{
    let mut s = String::new();
    if n < 0 {
        push_char(&mut s, '-');
        let m: u64 = if n == i64::MIN { 9223372036854775808u64 } else { (-n) as u64 };
        push_decimal(&mut s, m);
    } else {
        push_decimal(&mut s, n as u64);
    }
    proof {
        if n < 0 {
            assert(s@ =~= seq!['-'] + decimal((-n) as nat));
        }
    }
    s
}

/// `format!("{:02}", n)`.
pub fn two_digit_string(n: u64) -> (r: String)
    ensures
        r@ == decimal2(n as nat),
{
    let mut s = String::new();
    if n < 10 {
        push_char(&mut s, '0');
        push_char(&mut s, digit(n));
        proof {
            assert(s@ =~= seq!['0', digit_char(n as int)]);
        }
    } else {
        push_decimal(&mut s, n);
        proof {
            assert(s@ =~= decimal(n as nat));
        }
    }
    s
}

} // verus!
