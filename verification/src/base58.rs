//! Base58 text of bytes, in the alphabet that Solana addresses are written in.

use vstd::prelude::*;
use vstd::arithmetic::div_mod::{
    lemma_fundamental_div_mod, lemma_fundamental_div_mod_converse_div,
    lemma_fundamental_div_mod_converse_mod,
};
use crate::text::push_char;

verus! {

/// The character code of base58 digit `d`: `1`-`9`, `A`-`H`, `J`-`N`, `P`-`Z`, `a`-`k`, `m`-`z`.
pub open spec fn b58_code(d: int) -> int {
    if d < 9 {
        49 + d
    } else if d < 17 {
        65 + (d - 9)
    } else if d < 22 {
        74 + (d - 17)
    } else if d < 33 {
        80 + (d - 22)
    } else if d < 44 {
        97 + (d - 33)
    } else {
        109 + (d - 44)
    }
}

/// Base58 digit `d` as a character.
pub open spec fn b58_char(d: int) -> char {
    b58_code(d) as char
}

/// The number that bytes stand for, most significant first.
pub open spec fn be_value(b: Seq<u8>) -> nat
    decreases b.len(),
{
    if b.len() == 0 {
        0
    } else {
        (be_value(b.drop_last()) * 256 + b.last()) as nat
    }
}

/// The base58 digits of a number, most significant first, with none for zero.
pub open spec fn digits58(n: nat) -> Seq<char>
    decreases n,
{
    if n == 0 {
        Seq::empty()
    } else {
        digits58(n / 58).push(b58_char((n % 58) as int))
    }
}

/// How many zero bytes the bytes start with.
pub open spec fn leading_zeros(b: Seq<u8>) -> nat
    decreases b.len(),
{
    if b.len() > 0 && b[0] == 0 {
        1 + leading_zeros(b.drop_first())
    } else {
        0
    }
}

/// The base58 text of bytes: a `1` for each leading zero byte, then the digits of the
/// number that the bytes stand for.
pub open spec fn base58(b: Seq<u8>) -> Seq<char> {
    Seq::new(leading_zeros(b), |i: int| '1') + digits58(be_value(b))
}

/// `58` to the power `n`.
pub open spec fn pow58(n: nat) -> nat
    decreases n,
{
    if n == 0 {
        1
    } else {
        58 * pow58((n - 1) as nat)
    }
}

/// The number that base58 digits stand for, least significant first.
pub open spec fn val58(d: Seq<u8>) -> nat
    decreases d.len(),
{
    if d.len() == 0 {
        0
    } else {
        (d[0] + 58 * val58(d.drop_first())) as nat
    }
}

/// Digits, least significant first, written out most significant first.
pub open spec fn rev_chars(d: Seq<u8>) -> Seq<char>
    decreases d.len(),
{
    if d.len() == 0 {
        Seq::empty()
    } else {
        rev_chars(d.drop_first()).push(b58_char(d[0] as int))
    }
}

proof fn lemma_val58_push(d: Seq<u8>, x: u8)
    ensures
        val58(d.push(x)) == val58(d) + x * pow58(d.len()),
    decreases d.len(),
{
    if d.len() > 0 {
        assert(d.push(x).drop_first() =~= d.drop_first().push(x));
        lemma_val58_push(d.drop_first(), x);
        let p = pow58((d.len() - 1) as nat);
        assert(pow58(d.len()) == 58 * p);
        assert(d.push(x)[0] == d[0]);
        assert(58 * (val58(d.drop_first()) + x * p) == 58 * val58(d.drop_first()) + x * (58 * p))
            by (nonlinear_arith);
    } else {
        assert(d.push(x).drop_first() =~= Seq::<u8>::empty());
        assert(d.push(x).len() == 1);
        assert(d.push(x)[0] == x);
        assert(val58(d.push(x).drop_first()) == 0);
        assert(val58(d.push(x)) == x);
        assert(pow58(0) == 1);
    }
}

proof fn lemma_val58_take(d: Seq<u8>, j: int)
    requires
        0 <= j < d.len(),
    ensures
        val58(d.take(j + 1)) == val58(d.take(j)) + d[j] * pow58(j as nat),
{
    assert(d.take(j + 1) =~= d.take(j).push(d[j]));
    lemma_val58_push(d.take(j), d[j]);
}

proof fn lemma_val58_positive(d: Seq<u8>)
    requires
        d.len() > 0,
        d.last() != 0,
    ensures
        val58(d) > 0,
    decreases d.len(),
{
    if d.len() > 1 {
        assert(d.drop_first().last() == d.last());
        lemma_val58_positive(d.drop_first());
    }
}

/// Digits with no zero on the most significant side write out the number's base58 digits.
proof fn lemma_canonical_digits(d: Seq<u8>)
    requires
        forall|k: int| 0 <= k < d.len() ==> #[trigger] d[k] < 58,
        d.len() == 0 || d.last() != 0,
    ensures
        digits58(val58(d)) == rev_chars(d),
    decreases d.len(),
{
    if d.len() > 0 {
        let rest = d.drop_first();
        lemma_val58_positive(d);
        if rest.len() > 0 {
            assert(rest.last() == d.last());
        }
        lemma_canonical_digits(rest);
        let n = val58(d);
        lemma_fundamental_div_mod_converse_mod(n as int, 58, val58(rest) as int, d[0] as int);
        lemma_fundamental_div_mod_converse_div(n as int, 58, val58(rest) as int, d[0] as int);
    }
}

proof fn lemma_carry_split(c: int, p: int)
    requires
        c >= 0,
        p >= 0,
    ensures
        (c % 58) * p + (c / 58) * (58 * p) == c * p,
{
    lemma_fundamental_div_mod(c, 58);
    assert((c % 58) * p + (c / 58) * (58 * p) == (58 * (c / 58) + c % 58) * p) by (nonlinear_arith);
}

fn b58_char_exec(d: u8) -> (c: char)
    requires
        d < 58,
    ensures
        c == b58_char(d as int),
{
    let code: u8 = if d < 9 {
        49 + d
    } else if d < 17 {
        65 + (d - 9)
    } else if d < 22 {
        74 + (d - 17)
    } else if d < 33 {
        80 + (d - 22)
    } else if d < 44 {
        97 + (d - 33)
    } else {
        109 + (d - 44)
    };
    code as char
}

/// Multiply the number of base58 digits `d` by 256 and add `byte`.
fn shift_in(d: &mut Vec<u8>, byte: u8)
    requires
        forall|k: int| 0 <= k < old(d)@.len() ==> #[trigger] old(d)@[k] < 58,
    ensures
        forall|k: int| 0 <= k < final(d)@.len() ==> #[trigger] final(d)@[k] < 58,
        val58(final(d)@) == val58(old(d)@) * 256 + byte,
{
    let ghost d0 = d@;
    let mut carry: u32 = byte as u32;
    let mut j: usize = 0;
    assert(d@.take(0) =~= Seq::<u8>::empty());
    assert(d0.take(0) =~= Seq::<u8>::empty());
    assert(val58(Seq::<u8>::empty()) == 0);
    assert(pow58(0) == 1);
    while j < d.len()
        invariant
            j <= d@.len(),
            d@.len() == d0.len(),
            carry < 256,
            forall|k: int| 0 <= k < d@.len() ==> #[trigger] d@[k] < 58,
            forall|k: int| j <= k < d@.len() ==> #[trigger] d@[k] == d0[k],
            forall|k: int| 0 <= k < d0.len() ==> #[trigger] d0[k] < 58,
            val58(d@.take(j as int)) + carry * pow58(j as nat) == val58(d0.take(j as int)) * 256 + byte,
        decreases d@.len() - j,
    {
        let ghost dj = d@;
        let c2: u32 = carry + (d[j] as u32) * 256;
        let digit: u8 = (c2 % 58) as u8;
        d.set(j, digit);
        proof {
            assert(d@.take(j as int) =~= dj.take(j as int));
            lemma_val58_take(d@, j as int);
            lemma_val58_take(d0, j as int);
            lemma_carry_split(c2 as int, pow58(j as nat) as int);
            let p = pow58(j as nat) as int;
            assert((carry + d0[j as int] * 256) * p == carry * p + d0[j as int] * p * 256)
                by (nonlinear_arith);
            assert((val58(d0.take(j as int)) + d0[j as int] * p) * 256 == val58(d0.take(j as int)) * 256
                + d0[j as int] * p * 256) by (nonlinear_arith);
        }
        carry = c2 / 58;
        j = j + 1;
    }
    assert(d@.take(j as int) =~= d@);
    assert(d0.take(j as int) =~= d0);
    while carry > 0
        invariant
            carry < 256,
            forall|k: int| 0 <= k < d@.len() ==> #[trigger] d@[k] < 58,
            val58(d@) + carry * pow58(d@.len()) == val58(d0) * 256 + byte,
        decreases carry,
    {
        let ghost dj = d@;
        let digit: u8 = (carry % 58) as u8;
        d.push(digit);
        proof {
            lemma_val58_push(dj, digit);
            lemma_carry_split(carry as int, pow58(dj.len()) as int);
        }
        carry = carry / 58;
    }
}

/// The base58 text of bytes, as Solana writes public keys.
pub fn base58_encode(b: &[u8]) -> (s: String)
    requires
        b@.len() < usize::MAX,
    ensures
        s@ == base58(b@),
{
    let mut digits: Vec<u8> = Vec::new();
    let mut i: usize = 0;
    assert(b@.take(0) =~= Seq::<u8>::empty());
    while i < b.len()
        invariant
            i <= b@.len(),
            forall|k: int| 0 <= k < digits@.len() ==> #[trigger] digits@[k] < 58,
            val58(digits@) == be_value(b@.take(i as int)),
        decreases b@.len() - i,
    {
        shift_in(&mut digits, b[i]);
        proof {
            assert(b@.take(i + 1).drop_last() =~= b@.take(i as int));
        }
        i = i + 1;
    }
    assert(b@.take(i as int) =~= b@);
    while digits.len() > 0 && digits[digits.len() - 1] == 0
        invariant
            forall|k: int| 0 <= k < digits@.len() ==> #[trigger] digits@[k] < 58,
            val58(digits@) == be_value(b@),
        decreases digits@.len(),
    {
        let ghost before = digits@;
        digits.pop();
        proof {
            assert(before =~= digits@.push(0u8));
            lemma_val58_push(digits@, 0u8);
        }
    }
    proof {
        lemma_canonical_digits(digits@);
    }
    let mut out = String::new();
    let mut z: usize = 0;
    assert(b@.subrange(0, b@.len() as int) =~= b@);
    while z < b.len() && b[z] == 0
        invariant
            z <= b@.len(),
            leading_zeros(b@) == z + leading_zeros(b@.subrange(z as int, b@.len() as int)),
            out@ == Seq::new(z as nat, |k: int| '1'),
        decreases b@.len() - z,
    {
        proof {
            assert(b@.subrange(z as int, b@.len() as int).drop_first() =~= b@.subrange(z + 1, b@.len() as int));
        }
        let ghost before = out@;
        push_char(&mut out, '1');
        assert(out@ =~= Seq::new((z + 1) as nat, |k: int| '1'));
        z = z + 1;
    }
    assert(leading_zeros(b@.subrange(z as int, b@.len() as int)) == 0);
    let ghost ones = out@;
    let mut k: usize = digits.len();
    assert(digits@.subrange(k as int, digits@.len() as int) =~= Seq::<u8>::empty());
    while k > 0
        invariant
            k <= digits@.len(),
            forall|m: int| 0 <= m < digits@.len() ==> #[trigger] digits@[m] < 58,
            out@ == ones + rev_chars(digits@.subrange(k as int, digits@.len() as int)),
        decreases k,
    {
        let c = b58_char_exec(digits[k - 1]);
        push_char(&mut out, c);
        proof {
            let tail = digits@.subrange(k - 1, digits@.len() as int);
            assert(tail.drop_first() =~= digits@.subrange(k as int, digits@.len() as int));
        }
        k = k - 1;
    }
    assert(digits@.subrange(0, digits@.len() as int) =~= digits@);
    out
}

} // verus!
