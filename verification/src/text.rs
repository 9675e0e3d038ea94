//! Character and string helpers shared by the front end and the generators.

use vstd::prelude::*;

verus! {

broadcast use vstd::string::group_string_axioms;

/// The characters of a string slice, in order.
pub fn chars_of(s: &str) -> (v: Vec<char>)
    ensures
        v@ == s@,
{
    let mut v: Vec<char> = Vec::new();
    for c in it: s.chars()
        invariant
            v@ == it.seq().take(it.index() as int),
    {
        v.push(c);
    }
    assert(v@ =~= s@);
    v
}

} // verus!

verus! {

/// Append one character to a string.
#[verifier::external_body]
pub fn push_char(s: &mut String, c: char)
    ensures
        final(s)@ == old(s)@.push(c),
{
    s.push(c);
}

/// Append a string slice to a string.
pub fn push_str(s: &mut String, t: &str)
    ensures
        final(s)@ == old(s)@ + t@,
{
    let cs = chars_of(t);
    let mut i: usize = 0;
    while i < cs.len()
        invariant
            i <= cs@.len(),
            cs@ == t@,
            s@ == old(s)@ + cs@.take(i as int),
        decreases cs@.len() - i,
    {
        push_char(s, cs[i]);
        i = i + 1;
        assert(s@ =~= old(s)@ + cs@.take(i as int));
    }
    assert(cs@.take(cs@.len() as int) =~= cs@);
}

/// The concatenation of two string slices.
pub fn concat(a: &str, b: &str) -> (s: String)
    ensures
        s@ == a@ + b@,
{
    let mut s = a.to_owned();
    push_str(&mut s, b);
    s
}

/// The string made of the given characters.
pub fn string_of(v: &[char]) -> (s: String)
    ensures
        s@ == v@,
{
    let mut s = String::new();
    let mut i: usize = 0;
    while i < v.len()
        invariant
            i <= v@.len(),
            s@ == v@.take(i as int),
        decreases v@.len() - i,
    {
        push_char(&mut s, v[i]);
        i = i + 1;
        assert(s@ =~= v@.take(i as int));
    }
    assert(v@.take(v@.len() as int) =~= v@);
    s
}

/// Whether a character sequence spells the given string.
pub fn chars_eq_str(w: &[char], lit: &str) -> (b: bool)
    ensures
        b == (w@ == lit@),
{
    let l = chars_of(lit);
    if w.len() != l.len() {
        return false;
    }
    let mut i: usize = 0;
    while i < w.len()
        invariant
            i <= w@.len(),
            w@.len() == l@.len(),
            l@ == lit@,
            forall|j: int| 0 <= j < i ==> w@[j] == l@[j],
        decreases w@.len() - i,
    {
        if w[i] != l[i] {
            return false;
        }
        i = i + 1;
    }
    assert(w@ =~= l@);
    true
}

/// Whether two string slices hold the same characters.
pub fn str_eq(a: &str, b: &str) -> (r: bool)
    ensures
        r == (a@ == b@),
{
    let v = chars_of(a);
    chars_eq_str(v.as_slice(), b)
}

/// The decimal digit for a number below ten.
pub open spec fn digit_char(d: nat) -> char {
    if d == 0 { '0' } else if d == 1 { '1' } else if d == 2 { '2' } else if d == 3 { '3' }
    else if d == 4 { '4' } else if d == 5 { '5' } else if d == 6 { '6' } else if d == 7 { '7' }
    else if d == 8 { '8' } else { '9' }
}

/// The decimal notation of a natural number, without leading zeros.
pub open spec fn dec_seq(n: nat) -> Seq<char>
    decreases n,
{
    if n < 10 {
        seq![digit_char(n)]
    } else {
        dec_seq(n / 10).push(digit_char(n % 10))
    }
}

/// Whether a character is a decimal digit.
pub open spec fn is_digit(c: char) -> bool {
    '0' <= c && c <= '9'
}

/// The value of a decimal digit.
pub open spec fn digit_value(c: char) -> nat {
    (c as int - '0' as int) as nat
}

/// The number that a sequence of decimal digits denotes.
pub open spec fn dec_value(s: Seq<char>) -> nat
    decreases s.len(),
{
    if s.len() == 0 {
        0
    } else {
        dec_value(s.drop_last()) * 10 + digit_value(s.last())
    }
}

fn digit_of(d: u64) -> (c: char)
    requires
        d < 10,
    ensures
        c == digit_char(d as nat),
{
    if d == 0 { '0' } else if d == 1 { '1' } else if d == 2 { '2' } else if d == 3 { '3' }
    else if d == 4 { '4' } else if d == 5 { '5' } else if d == 6 { '6' } else if d == 7 { '7' }
    else if d == 8 { '8' } else { '9' }
}

/// The decimal notation of a number.
pub fn dec_string(n: u64) -> (s: String)
    ensures
        s@ == dec_seq(n as nat),
    decreases n,
{
    if n < 10 {
        let mut s = String::new();
        push_char(&mut s, digit_of(n));
        assert(s@ =~= seq![digit_char(n as nat)]);
        s
    } else {
        let mut s = dec_string(n / 10);
        push_char(&mut s, digit_of(n % 10));
        s
    }
}

fn digit_of_u128(d: u128) -> (c: char)
    requires
        d < 10,
    ensures
        c == digit_char(d as nat),
{
    if d == 0 { '0' } else if d == 1 { '1' } else if d == 2 { '2' } else if d == 3 { '3' }
    else if d == 4 { '4' } else if d == 5 { '5' } else if d == 6 { '6' } else if d == 7 { '7' }
    else if d == 8 { '8' } else { '9' }
}

/// The decimal notation of a 128-bit number.
pub fn dec_string_u128(n: u128) -> (s: String)
    ensures
        s@ == dec_seq(n as nat),
    decreases n,
{
    if n < 10 {
        let mut s = String::new();
        push_char(&mut s, digit_of_u128(n));
        assert(s@ =~= seq![digit_char(n as nat)]);
        s
    } else {
        let mut s = dec_string_u128(n / 10);
        push_char(&mut s, digit_of_u128(n % 10));
        s
    }
}

/// The decimal notation of a signed 128-bit number, with `-` before a negative one.
pub fn dec_string_i128(n: i128) -> (s: String)
    ensures
        s@ == (if n < 0 { seq!['-'] + dec_seq((-n) as nat) } else { dec_seq(n as nat) }),
{
    if n < 0 {
        let k: i128 = n + 1;
        let pos: i128 = 0 - k;
        let m: u128 = (pos as u128) + 1;
        assert(m == -n);
        let mut s = String::new();
        push_char(&mut s, '-');
        let d = dec_string_u128(m);
        push_str(&mut s, d.as_str());
        assert(s@ =~= seq!['-'] + dec_seq((-n) as nat));
        s
    } else {
        dec_string_u128(n as u128)
    }
}

/// The value of a sequence of decimal digits as a `u128`, or zero when it does not fit.
pub fn parse_dec_u128(d: &[char]) -> (r: u128)
    requires
        forall|i: int| 0 <= i < d@.len() ==> is_digit(#[trigger] d@[i]),
    ensures
        r == (if dec_value(d@) <= u128::MAX { dec_value(d@) } else { 0 }),
{
    let mut acc: u128 = 0;
    let mut i: usize = 0;
    while i < d.len()
        invariant
            i <= d@.len(),
            forall|k: int| 0 <= k < d@.len() ==> is_digit(#[trigger] d@[k]),
            acc == dec_value(d@.take(i as int)),
        decreases d@.len() - i,
    {
        let c = d[i];
        let v = (c as u32 - '0' as u32) as u128;
        assert(d@.take(i + 1).drop_last() =~= d@.take(i as int));
        assert(dec_value(d@.take(i + 1)) == acc * 10 + v);
        if acc > (u128::MAX - v) / 10 {
            proof {
                lemma_dec_value_prefix_le(d@, i + 1);
            }
            return 0;
        }
        acc = acc * 10 + v;
        i = i + 1;
    }
    assert(d@.take(d@.len() as int) =~= d@);
    acc
}

/// The value of a sequence of decimal digits as a `u64`, or zero when it does not fit.
pub fn parse_dec_u64(d: &[char]) -> (r: u64)
    requires
        forall|i: int| 0 <= i < d@.len() ==> is_digit(#[trigger] d@[i]),
    ensures
        r == (if dec_value(d@) <= u64::MAX { dec_value(d@) } else { 0 }),
{
    let mut acc: u64 = 0;
    let mut i: usize = 0;
    while i < d.len()
        invariant
            i <= d@.len(),
            forall|k: int| 0 <= k < d@.len() ==> is_digit(#[trigger] d@[k]),
            acc == dec_value(d@.take(i as int)),
        decreases d@.len() - i,
    {
        let c = d[i];
        let v = (c as u32 - '0' as u32) as u64;
        assert(d@.take(i + 1).drop_last() =~= d@.take(i as int));
        assert(dec_value(d@.take(i + 1)) == acc * 10 + v);
        if acc > (u64::MAX - v) / 10 {
            proof {
                lemma_dec_value_prefix_le(d@, i + 1);
            }
            return 0;
        }
        acc = acc * 10 + v;
        i = i + 1;
    }
    assert(d@.take(d@.len() as int) =~= d@);
    acc
}

/// A prefix of a digit sequence denotes no more than the whole sequence.
pub proof fn lemma_dec_value_prefix_le(s: Seq<char>, k: int)
    requires
        0 <= k <= s.len(),
        forall|i: int| 0 <= i < s.len() ==> is_digit(#[trigger] s[i]),
    ensures
        dec_value(s.take(k)) <= dec_value(s),
    decreases s.len() - k,
{
    if k < s.len() {
        lemma_dec_value_prefix_le(s, k + 1);
        assert(s.take(k + 1).drop_last() =~= s.take(k));
        assert(dec_value(s.take(k + 1)) == dec_value(s.take(k)) * 10 + digit_value(s[k]));
    } else {
        assert(s.take(k) =~= s);
    }
}


/// Ten to the power `k`.
pub open spec fn pow10(k: nat) -> nat
    decreases k,
{
    if k == 0 {
        1
    } else {
        10 * pow10((k - 1) as nat)
    }
}

/// The decimal notation of a number is a nonempty sequence of digits.
pub proof fn lemma_dec_seq_digits(n: nat)
    ensures
        dec_seq(n).len() >= 1,
        forall|i: int| 0 <= i < dec_seq(n).len() ==> is_digit(#[trigger] dec_seq(n)[i]),
    decreases n,
{
    if n >= 10 {
        lemma_dec_seq_digits(n / 10);
        assert forall|i: int| 0 <= i < dec_seq(n).len() implies is_digit(#[trigger] dec_seq(n)[i]) by {
            if i < dec_seq(n / 10).len() {
                assert(dec_seq(n)[i] == dec_seq(n / 10)[i]);
            }
        }
    }
}

/// The digit for a number below ten is a digit of that value.
pub proof fn lemma_digit_char(d: nat)
    requires
        d < 10,
    ensures
        is_digit(digit_char(d)),
        digit_value(digit_char(d)) == d,
{
}

/// Reading the decimal notation of a number gives the number back.
pub proof fn lemma_dec_seq_value(n: nat)
    ensures
        dec_value(dec_seq(n)) == n,
    decreases n,
{
    lemma_digit_char(n % 10);
    if n < 10 {
        assert(dec_seq(n).drop_last() =~= Seq::<char>::empty());
        assert(dec_value(dec_seq(n).drop_last()) == 0);
        assert(dec_seq(n).last() == digit_char(n));
        assert(n % 10 == n);
    } else {
        lemma_dec_seq_value(n / 10);
        assert(dec_seq(n).drop_last() =~= dec_seq(n / 10));
        assert(dec_seq(n).last() == digit_char(n % 10));
        assert((n / 10) * 10 + n % 10 == n);
    }
}

/// Numbers below a thousand take at most three digits.
pub proof fn lemma_dec_seq_len(n: nat)
    ensures
        n < 1000 ==> dec_seq(n).len() <= 3,
{
    if n >= 10 && n < 1000 {
        assert(dec_seq(n).len() == dec_seq(n / 10).len() + 1);
        if n / 10 >= 10 {
            assert(dec_seq(n / 10).len() == dec_seq(n / 10 / 10).len() + 1);
            assert(n / 10 / 10 < 10);
        }
    }
}

/// A sequence of `k` digits denotes a number below ten to the power `k`.
pub proof fn lemma_dec_value_lt(s: Seq<char>)
    requires
        forall|i: int| 0 <= i < s.len() ==> is_digit(#[trigger] s[i]),
    ensures
        dec_value(s) < pow10(s.len()),
    decreases s.len(),
{
    if s.len() > 0 {
        assert(forall|i: int| 0 <= i < s.drop_last().len() ==> s.drop_last()[i] == s[i]);
        lemma_dec_value_lt(s.drop_last());
        assert(is_digit(s.last()));
    }
}

/// At most three digits denote a number below a thousand.
pub proof fn lemma_dec_value_bound(s: Seq<char>)
    requires
        s.len() <= 3,
        forall|i: int| 0 <= i < s.len() ==> is_digit(#[trigger] s[i]),
    ensures
        dec_value(s) < 1000,
{
    lemma_dec_value_lt(s);
    assert(pow10(3) == 1000) by {
        reveal_with_fuel(pow10, 4);
    }
    if s.len() < 3 {
        assert(pow10(s.len()) <= 100) by {
            reveal_with_fuel(pow10, 4);
        }
    }
}
} // verus!
