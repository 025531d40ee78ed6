//! Characters, decimal numerals, and the small text lemmas the translator
//! needs: rendering a counter as digits, parsing an index, case folding for
//! keyword matching, and injectivity of the generated numerals.
use vstd::prelude::*;

verus! {

/// The whitespace characters that separate tokens on an instruction line.
pub open spec fn is_space(c: char) -> bool {
    c == ' ' || c == '\t' || c == '\r' || c == '\n'
}

pub open spec fn is_digit_char(c: char) -> bool {
    48 <= c as u32 <= 57
}

/// ASCII-only lower casing, enough for case-insensitive keyword matching.
pub open spec fn lower_char(c: char) -> char {
    if c == 'A' { 'a' } else if c == 'B' { 'b' } else if c == 'C' { 'c' }
    else if c == 'D' { 'd' } else if c == 'E' { 'e' } else if c == 'F' { 'f' }
    else if c == 'G' { 'g' } else if c == 'H' { 'h' } else if c == 'I' { 'i' }
    else if c == 'J' { 'j' } else if c == 'K' { 'k' } else if c == 'L' { 'l' }
    else if c == 'M' { 'm' } else if c == 'N' { 'n' } else if c == 'O' { 'o' }
    else if c == 'P' { 'p' } else if c == 'Q' { 'q' } else if c == 'R' { 'r' }
    else if c == 'S' { 's' } else if c == 'T' { 't' } else if c == 'U' { 'u' }
    else if c == 'V' { 'v' } else if c == 'W' { 'w' } else if c == 'X' { 'x' }
    else if c == 'Y' { 'y' } else if c == 'Z' { 'z' } else { c }
}

pub open spec fn lower_all(s: Seq<char>) -> Seq<char> {
    s.map_values(|c: char| lower_char(c))
}

pub open spec fn digit_char(n: nat) -> char {
    if n == 0 { '0' } else if n == 1 { '1' } else if n == 2 { '2' } else if n == 3 { '3' }
    else if n == 4 { '4' } else if n == 5 { '5' } else if n == 6 { '6' } else if n == 7 { '7' }
    else if n == 8 { '8' } else { '9' }
}

/// The canonical decimal numeral of `n`: most significant digit first, no
/// leading zeros (a single `'0'` for zero).
pub open spec fn dec_digits(n: nat) -> Seq<char>
    decreases n,
{
    if n < 10 {
        seq![digit_char(n)]
    } else {
        dec_digits(n / 10) + seq![digit_char(n % 10)]
    }
}

/// The numeric value of a digit string, most significant digit first.
pub open spec fn digits_value(t: Seq<char>) -> int
    decreases t.len(),
{
    if t.len() == 0 {
        0
    } else {
        digits_value(t.drop_last()) * 10 + (t.last() as u32 - 48)
    }
}

pub open spec fn all_digits(t: Seq<char>) -> bool {
    forall|i: int| 0 <= i < t.len() ==> is_digit_char(#[trigger] t[i])
}

/// What a numeric operand token means: a non-empty all-digit token whose
/// value fits the index type; anything else is malformed.
pub open spec fn parse_index(t: Seq<char>) -> Option<u32> {
    if t.len() >= 1 && all_digits(t) && digits_value(t) <= u32::MAX {
        Some(digits_value(t) as u32)
    } else {
        None
    }
}

pub fn lower_char_ex(c: char) -> (r: char)
    ensures
        r == lower_char(c),
{
    if c == 'A' { 'a' } else if c == 'B' { 'b' } else if c == 'C' { 'c' }
    else if c == 'D' { 'd' } else if c == 'E' { 'e' } else if c == 'F' { 'f' }
    else if c == 'G' { 'g' } else if c == 'H' { 'h' } else if c == 'I' { 'i' }
    else if c == 'J' { 'j' } else if c == 'K' { 'k' } else if c == 'L' { 'l' }
    else if c == 'M' { 'm' } else if c == 'N' { 'n' } else if c == 'O' { 'o' }
    else if c == 'P' { 'p' } else if c == 'Q' { 'q' } else if c == 'R' { 'r' }
    else if c == 'S' { 's' } else if c == 'T' { 't' } else if c == 'U' { 'u' }
    else if c == 'V' { 'v' } else if c == 'W' { 'w' } else if c == 'X' { 'x' }
    else if c == 'Y' { 'y' } else if c == 'Z' { 'z' } else { c }
}

fn digit_str(d: u64) -> (r: &'static str)
    requires
        d < 10,
    ensures
        r@ == seq![digit_char(d as nat)],
{
    let s = if d == 0 { "0" } else if d == 1 { "1" } else if d == 2 { "2" } else if d == 3 { "3" }
    else if d == 4 { "4" } else if d == 5 { "5" } else if d == 6 { "6" } else if d == 7 { "7" }
    else if d == 8 { "8" } else { "9" };
    proof {
        reveal_strlit("0"); reveal_strlit("1"); reveal_strlit("2"); reveal_strlit("3");
        reveal_strlit("4"); reveal_strlit("5"); reveal_strlit("6"); reveal_strlit("7");
        reveal_strlit("8"); reveal_strlit("9");
    }
    s
}

/// Renders `n` as its canonical decimal numeral.
pub fn u64_to_string(n: u64) -> (s: String)
    ensures
        s@ == dec_digits(n as nat),
    decreases n,
{
    if n < 10 {
        String::from_str(digit_str(n))
    } else {
        let mut s = u64_to_string(n / 10);
        s.append(digit_str(n % 10));
        s
    }
}

/// Case-insensitive comparison of a token against an (already lower-case)
/// keyword.
pub fn eq_ignore_case(tok: &str, kw: &str) -> (r: bool)
    ensures
        r == (lower_all(tok@) == kw@),
{
    let n = tok.unicode_len();
    let m = kw.unicode_len();
    if n != m {
        proof {
            assert(lower_all(tok@).len() == tok@.len());
        }
        return false;
    }
    let mut i: usize = 0;
    while i < n
        invariant
            n == tok@.len(),
            n == kw@.len(),
            0 <= i <= n,
            forall|j: int| 0 <= j < i ==> lower_char(#[trigger] tok@[j]) == kw@[j],
        decreases n - i,
    {
        let c = tok.get_char(i);
        let k = kw.get_char(i);
        if lower_char_ex(c) != k {
            proof {
                assert(lower_all(tok@)[i as int] != kw@[i as int]);
            }
            return false;
        }
        i = i + 1;
    }
    proof {
        assert(lower_all(tok@) =~= kw@);
    }
    true
}

proof fn lemma_digits_value_nonneg(t: Seq<char>)
    requires
        all_digits(t),
    ensures
        digits_value(t) >= 0,
    decreases t.len(),
{
    if t.len() > 0 {
        assert(all_digits(t.drop_last())) by {
            assert(forall|i: int| 0 <= i < t.len() - 1 ==> t.drop_last()[i] == t[i]);
        }
        lemma_digits_value_nonneg(t.drop_last());
    }
}

proof fn lemma_digits_value_prefix_le(t: Seq<char>, k: int)
    requires
        all_digits(t),
        0 <= k <= t.len(),
    ensures
        digits_value(t.take(k)) <= digits_value(t),
    decreases t.len() - k,
{
    if k < t.len() {
        lemma_digits_value_prefix_le(t, k + 1);
        assert(t.take(k + 1).drop_last() =~= t.take(k));
        assert(all_digits(t.take(k))) by {
            assert(forall|i: int| 0 <= i < k ==> t.take(k)[i] == t[i]);
        }
        lemma_digits_value_nonneg(t.take(k));
        assert(digits_value(t.take(k + 1)) == digits_value(t.take(k)) * 10 + (t[k] as u32 - 48));
        assert(digits_value(t.take(k)) * 10 >= digits_value(t.take(k)));
        assert(t[k] as u32 - 48 >= 0);
    } else {
        assert(t.take(k) =~= t);
    }
}

/// Parses a numeric operand token; `None` exactly on malformed input.
pub fn parse_u32(tok: &str) -> (r: Option<u32>)
    ensures
        r == parse_index(tok@),
{
    let n = tok.unicode_len();
    if n == 0 {
        return None;
    }
    let mut acc: u64 = 0;
    let mut i: usize = 0;
    while i < n
        invariant
            n == tok@.len(),
            0 <= i <= n,
            all_digits(tok@.take(i as int)),
            acc == digits_value(tok@.take(i as int)),
            acc <= u32::MAX,
        decreases n - i,
    {
        let c = tok.get_char(i);
        let u = c as u32;
        if u < 48 || u > 57 {
            proof {
                assert(!is_digit_char(tok@[i as int]));
            }
            return None;
        }
        let d: u64 = (u - 48) as u64;
        proof {
            assert(tok@.take(i + 1).drop_last() =~= tok@.take(i as int));
            assert(forall|j: int| 0 <= j < i + 1 ==> tok@.take(i + 1)[j] == tok@[j]);
        }
        let next: u64 = acc * 10 + d;
        if next > u32::MAX as u64 {
            proof {
                assert(digits_value(tok@.take(i + 1)) == next);
                if all_digits(tok@) {
                    lemma_digits_value_prefix_le(tok@, i + 1);
                }
            }
            return None;
        }
        acc = next;
        i = i + 1;
    }
    proof {
        assert(tok@.take(n as int) =~= tok@);
    }
    Some(acc as u32)
}

pub proof fn lemma_dec_digits_len(n: nat)
    ensures
        dec_digits(n).len() >= 1,
        n >= 10 ==> dec_digits(n).len() >= 2,
    decreases n,
{
    if n >= 10 {
        lemma_dec_digits_len(n / 10);
    }
}

pub proof fn lemma_dec_digits_all_digits(n: nat)
    ensures
        all_digits(dec_digits(n)),
    decreases n,
{
    if n < 10 {
        assert(is_digit_char(digit_char(n)));
    } else {
        lemma_dec_digits_all_digits(n / 10);
        assert(is_digit_char(digit_char(n % 10)));
        assert(forall|i: int| 0 <= i < dec_digits(n).len() ==> is_digit_char(#[trigger] dec_digits(n)[i])) by {
            lemma_dec_digits_len(n / 10);
            assert(forall|i: int| 0 <= i < dec_digits(n / 10).len()
                ==> #[trigger] dec_digits(n)[i] == dec_digits(n / 10)[i]);
            assert(dec_digits(n)[dec_digits(n).len() - 1] == digit_char(n % 10));
        }
    }
}

proof fn lemma_digit_char_injective(a: nat, b: nat)
    requires
        a < 10,
        b < 10,
        digit_char(a) == digit_char(b),
    ensures
        a == b,
{
}

/// Distinct numbers have distinct canonical numerals.
pub proof fn lemma_dec_digits_injective(a: nat, b: nat)
    requires
        dec_digits(a) == dec_digits(b),
    ensures
        a == b,
    decreases a,
{
    lemma_dec_digits_len(a);
    lemma_dec_digits_len(b);
    if a < 10 && b < 10 {
        assert(dec_digits(a)[0] == digit_char(a));
        assert(dec_digits(b)[0] == digit_char(b));
        lemma_digit_char_injective(a, b);
    } else if a < 10 {
        assert(dec_digits(a).len() == 1);
        assert(dec_digits(b).len() >= 2);
    } else if b < 10 {
        assert(dec_digits(a).len() >= 2);
        assert(dec_digits(b).len() == 1);
    } else {
        let la = dec_digits(a / 10);
        let lb = dec_digits(b / 10);
        assert(dec_digits(a).last() == digit_char(a % 10));
        assert(dec_digits(b).last() == digit_char(b % 10));
        lemma_digit_char_injective(a % 10, b % 10);
        assert(dec_digits(a).drop_last() =~= la);
        assert(dec_digits(b).drop_last() =~= lb);
        lemma_dec_digits_injective(a / 10, b / 10);
    }
}

/// Splitting a string at a `'.'` that is followed only by digits is
/// unambiguous: the digit suffix and the prefix are both determined.
pub proof fn lemma_dot_split_unique(p1: Seq<char>, d1: Seq<char>, p2: Seq<char>, d2: Seq<char>)
    requires
        p1 + seq!['.'] + d1 == p2 + seq!['.'] + d2,
        all_digits(d1),
        all_digits(d2),
        d1.len() >= 1,
        d2.len() >= 1,
    ensures
        p1 == p2,
        d1 == d2,
{
    let s = p1 + seq!['.'] + d1;
    assert(s.len() == p1.len() + 1 + d1.len());
    assert(s.len() == p2.len() + 1 + d2.len());
    assert(s[p1.len() as int] == '.');
    assert(s[p2.len() as int] == '.');
    assert(!is_digit_char('.')) by {
        assert('.' as u32 == 46);
    }
    if p1.len() < p2.len() {
        // then position p2.len() lies inside d1, a digit region
        let k = p2.len() - p1.len() - 1;
        assert(0 <= k < d1.len());
        assert(s[p2.len() as int] == d1[k]);
        assert(is_digit_char(d1[k]));
        assert(false);
    }
    if p2.len() < p1.len() {
        let k = p1.len() - p2.len() - 1;
        assert(0 <= k < d2.len());
        assert(s[p1.len() as int] == d2[k]);
        assert(is_digit_char(d2[k]));
        assert(false);
    }
    assert(p1.len() == p2.len());
    assert forall|i: int| 0 <= i < p1.len() implies p1[i] == p2[i] by {
        assert(s[i] == p1[i]);
        assert((p2 + seq!['.'] + d2)[i] == p2[i]);
    }
    assert(p1 =~= p2);
    assert forall|i: int| 0 <= i < d1.len() implies d1[i] == d2[i] by {
        assert(s[p1.len() + 1 + i] == d1[i]);
        assert((p2 + seq!['.'] + d2)[p2.len() + 1 + i] == d2[i]);
    }
    assert(d1 =~= d2);
}

} // verus!
