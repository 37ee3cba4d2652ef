//! Mathematical model of little-endian bit sequences: the numeric value of a
//! sequence of bits, the ripple-carry chain of a binary adder, and the
//! most-significant-bit-first textual form used by rendering and parsing.

use vstd::prelude::*;
use vstd::arithmetic::power2::lemma2_to64;
use vstd::arithmetic::power2::lemma_pow2_unfold;
use vstd::arithmetic::power2::pow2;
use vstd::arithmetic::div_mod::lemma_fundamental_div_mod_converse;

verus! {

/// Numeric value of a bit sequence; bit 0 is the least significant.
pub open spec fn bits_value(s: Seq<bool>) -> nat
    decreases s.len(),
{
    if s.len() == 0 {
        0
    } else {
        (if s[0] {
            1nat
        } else {
            0nat
        }) + 2 * bits_value(s.skip(1))
    }
}

/// The numeric value of a bit as a natural number.
pub open spec fn bit_as_nat(b: bool) -> nat {
    if b {
        1
    } else {
        0
    }
}

/// Pointwise complement of a bit sequence.
pub open spec fn bits_not(s: Seq<bool>) -> Seq<bool> {
    Seq::new(s.len(), |i: int| !s[i])
}

/// Carry entering bit position `i` of a ripple-carry adder over `a` and `b`
/// with initial carry `c0`; `carry_chain(a, b, c0, a.len())` is the carry out
/// of the top bit.
pub open spec fn carry_chain(a: Seq<bool>, b: Seq<bool>, c0: bool, i: int) -> bool
    decreases i,
{
    if i <= 0 {
        c0
    } else {
        let j = i - 1;
        (a[j] && b[j]) || ((a[j] || b[j]) && carry_chain(a, b, c0, j))
    }
}

/// Sum bits of a ripple-carry adder: bit `i` is `a[i] xor b[i] xor carry_in(i)`.
pub open spec fn sum_bits(a: Seq<bool>, b: Seq<bool>, c0: bool) -> Seq<bool> {
    Seq::new(a.len(), |i: int| ((a[i] != b[i]) != carry_chain(a, b, c0, i)))
}

/// Textual form: one character per bit, most significant bit first.
pub open spec fn render_bits(s: Seq<bool>) -> Seq<char> {
    Seq::new(
        s.len(),
        |i: int|
            if s[s.len() - 1 - i] {
                '1'
            } else {
                '0'
            },
    )
}

/// Bits denoted by a string of '0'/'1' characters, most significant first.
pub open spec fn parse_bits(t: Seq<char>) -> Seq<bool> {
    Seq::new(t.len(), |i: int| t[t.len() - 1 - i] == '1')
}

/// A sequence of characters that consists of binary digits only.
pub open spec fn all_binary_digits(t: Seq<char>) -> bool {
    forall|i: int| 0 <= i < t.len() ==> t[i] == '0' || t[i] == '1'
}

pub proof fn lemma_bits_value_bound(s: Seq<bool>)
    ensures
        bits_value(s) < pow2(s.len()),
    decreases s.len(),
{
    if s.len() == 0 {
        lemma2_to64();
    } else {
        lemma_bits_value_bound(s.skip(1));
        lemma_pow2_unfold(s.len());
    }
}

pub proof fn lemma_bits_value_zero(s: Seq<bool>)
    requires
        forall|i: int| 0 <= i < s.len() ==> !s[i],
    ensures
        bits_value(s) == 0,
    decreases s.len(),
{
    if s.len() > 0 {
        lemma_bits_value_zero(s.skip(1));
    }
}

/// A sequence with a nonzero value has a set bit; with `lemma_bits_value_zero`
/// this makes `bits_value(s) == 0` equivalent to all bits being clear.
pub proof fn lemma_bits_value_nonzero(s: Seq<bool>)
    requires
        bits_value(s) == 0,
    ensures
        forall|i: int| 0 <= i < s.len() ==> !s[i],
    decreases s.len(),
{
    if s.len() > 0 {
        lemma_bits_value_nonzero(s.skip(1));
        assert forall|i: int| 0 <= i < s.len() implies !s[i] by {
            if i > 0 {
                assert(s.skip(1)[i - 1] == s[i]);
            }
        }
    }
}

/// Two bit sequences of one length with the same value have the same bits.
pub proof fn lemma_bits_value_injective(s: Seq<bool>, t: Seq<bool>)
    requires
        s.len() == t.len(),
        bits_value(s) == bits_value(t),
    ensures
        s =~= t,
    decreases s.len(),
{
    if s.len() > 0 {
        let v = bits_value(s) as int;
        lemma_fundamental_div_mod_converse(
            v,
            2,
            bits_value(s.skip(1)) as int,
            bit_as_nat(s[0]) as int,
        );
        lemma_fundamental_div_mod_converse(
            v,
            2,
            bits_value(t.skip(1)) as int,
            bit_as_nat(t[0]) as int,
        );
        assert(bit_as_nat(s[0]) == bit_as_nat(t[0]));
        assert(s[0] == t[0]);
        lemma_bits_value_injective(s.skip(1), t.skip(1));
        assert forall|i: int| 0 <= i < s.len() implies s[i] == t[i] by {
            if i > 0 {
                assert(s.skip(1)[i - 1] == s[i]);
                assert(t.skip(1)[i - 1] == t[i]);
            }
        }
    }
}

/// Appending a clear bit above the top does not change the value.
pub proof fn lemma_bits_value_push_false(s: Seq<bool>)
    ensures
        bits_value(s.push(false)) == bits_value(s),
    decreases s.len(),
{
    if s.len() == 0 {
        assert(s.push(false) =~= seq![false]);
        lemma_bits_value_single(false);
    } else {
        lemma_bits_value_push_false(s.skip(1));
        assert(s.push(false).skip(1) =~= s.skip(1).push(false));
        assert(s.push(false)[0] == s[0]);
    }
}

/// Comparing by the most significant differing bit: if the bits above `i`
/// agree and `s` has bit `i` set where `t` has it clear, `s` denotes the
/// larger value.
pub proof fn lemma_bits_value_msb_order(s: Seq<bool>, t: Seq<bool>, i: int)
    requires
        s.len() == t.len(),
        0 <= i < s.len(),
        forall|j: int| i < j < s.len() ==> s[j] == t[j],
        s[i],
        !t[i],
    ensures
        bits_value(s) > bits_value(t),
{
    lemma_bits_value_split(s, i);
    lemma_bits_value_split(t, i);
    assert(s.skip(i).skip(1) =~= t.skip(i).skip(1));
    assert(s.skip(i)[0] == s[i]);
    assert(t.skip(i)[0] == t[i]);
    let hs = bits_value(s.skip(i));
    let ht = bits_value(t.skip(i));
    assert(hs == 1 + 2 * bits_value(s.skip(i).skip(1)));
    assert(ht == 2 * bits_value(t.skip(i).skip(1)));
    assert(hs == ht + 1);
    lemma_bits_value_bound(s.take(i));
    lemma_bits_value_bound(t.take(i));
    assert(s.take(i).len() == i);
    assert(t.take(i).len() == i);
    let p = pow2(i as nat);
    assert(p * hs >= p * ht + p) by (nonlinear_arith)
        requires
            hs == ht + 1,
            p >= 0,
    ;
}

/// Splitting a sequence at position `i` splits its value: the low `i` bits
/// plus `pow2(i)` times the high bits.
pub proof fn lemma_bits_value_split(s: Seq<bool>, i: int)
    requires
        0 <= i <= s.len(),
    ensures
        bits_value(s) == bits_value(s.take(i)) + pow2(i as nat) * bits_value(s.skip(i)),
    decreases i,
{
    if i == 0 {
        lemma2_to64();
        assert(s.take(0).len() == 0);
        assert(s.skip(0) =~= s);
    } else {
        let rest = s.skip(1);
        lemma_bits_value_split(rest, i - 1);
        assert(s.take(i).skip(1) =~= rest.take(i - 1));
        assert(s.skip(i) =~= rest.skip(i - 1));
        assert(s.take(i)[0] == s[0]);
        lemma_pow2_unfold(i as nat);
        let p = pow2((i - 1) as nat);
        let v = bits_value(s.skip(i));
        assert(2 * (p * v) == (2 * p) * v) by (nonlinear_arith);
    }
}

/// The value of a one-bit sequence is that bit.
pub proof fn lemma_bits_value_single(x: bool)
    ensures
        bits_value(seq![x]) == bit_as_nat(x),
{
    reveal_with_fuel(bits_value, 2);
    let u = seq![x];
    assert(u.skip(1) =~= Seq::<bool>::empty());
    assert(bits_value(u) == bit_as_nat(u[0]) + 2 * bits_value(u.skip(1)));
}

/// Extending a prefix by one bit adds that bit's weight.
pub proof fn lemma_bits_value_take_succ(s: Seq<bool>, i: int)
    requires
        0 <= i < s.len(),
    ensures
        bits_value(s.take(i + 1)) == bits_value(s.take(i)) + bit_as_nat(s[i]) * pow2(i as nat),
{
    let t = s.take(i + 1);
    lemma_bits_value_split(t, i);
    assert(t.take(i) =~= s.take(i));
    assert(t.skip(i) =~= seq![s[i]]);
    lemma_bits_value_single(s[i]);
    assert(bits_value(t.skip(i)) == bit_as_nat(s[i]));
    let p = pow2(i as nat);
    if s[i] {
        assert(p * bit_as_nat(s[i]) == p && bit_as_nat(s[i]) * p == p) by (nonlinear_arith)
            requires
                bit_as_nat(s[i]) == 1,
        ;
    } else {
        assert(p * bit_as_nat(s[i]) == 0 && bit_as_nat(s[i]) * p == 0) by (nonlinear_arith)
            requires
                bit_as_nat(s[i]) == 0,
        ;
    }
}

/// The complement's value: flipping every bit of `s` gives
/// `pow2(len) - 1 - bits_value(s)`.
pub proof fn lemma_bits_value_not(s: Seq<bool>)
    ensures
        bits_value(bits_not(s)) + bits_value(s) + 1 == pow2(s.len()),
    decreases s.len(),
{
    if s.len() == 0 {
        lemma2_to64();
        assert(bits_not(s).len() == 0);
    } else {
        lemma_bits_value_not(s.skip(1));
        assert(bits_not(s).skip(1) =~= bits_not(s.skip(1)));
        assert(bits_not(s)[0] == !s[0]);
        lemma_pow2_unfold(s.len());
    }
}

/// Correctness of the ripple-carry adder on the low `i` bits: the sum bits
/// plus the weighted carry out equal the operands plus the carry in.
pub proof fn lemma_ripple_adder(a: Seq<bool>, b: Seq<bool>, c0: bool, i: int)
    requires
        a.len() == b.len(),
        0 <= i <= a.len(),
    ensures
        bits_value(sum_bits(a, b, c0).take(i)) + pow2(i as nat) * bit_as_nat(
            carry_chain(a, b, c0, i),
        ) == bits_value(a.take(i)) + bits_value(b.take(i)) + bit_as_nat(c0),
    decreases i,
{
    let s = sum_bits(a, b, c0);
    if i == 0 {
        lemma2_to64();
        assert(s.take(0).len() == 0);
        assert(bits_value(s.take(0)) == 0);
        assert(bits_value(a.take(0)) == 0);
        assert(bits_value(b.take(0)) == 0);
        assert(carry_chain(a, b, c0, 0) == c0);
        assert(pow2(0) * bit_as_nat(c0) == bit_as_nat(c0)) by (nonlinear_arith)
            requires
                pow2(0) == 1,
        ;
        assert(bits_value(sum_bits(a, b, c0).take(0)) + pow2(0) * bit_as_nat(
            carry_chain(a, b, c0, 0),
        ) == bits_value(a.take(0)) + bits_value(b.take(0)) + bit_as_nat(c0));
    } else {
        let j = i - 1;
        lemma_ripple_adder(a, b, c0, j);
        lemma_bits_value_take_succ(s, j);
        lemma_bits_value_take_succ(a, j);
        lemma_bits_value_take_succ(b, j);
        lemma_pow2_unfold(i as nat);
        let p = pow2(j as nat);
        assert(s[j] == ((a[j] != b[j]) != carry_chain(a, b, c0, j)));
        assert(carry_chain(a, b, c0, i) == ((a[j] && b[j]) || ((a[j] || b[j]) && carry_chain(
            a,
            b,
            c0,
            j,
        ))));
        let sa = bit_as_nat(a[j]);
        let sb = bit_as_nat(b[j]);
        let cin = bit_as_nat(carry_chain(a, b, c0, j));
        let cout = bit_as_nat(carry_chain(a, b, c0, i));
        let sbit = bit_as_nat(s[j]);
        assert(sbit + 2 * cout == sa + sb + cin);
        assert(sbit * p + (2 * p) * cout == sa * p + sb * p + cin * p) by (nonlinear_arith)
            requires
                sbit + 2 * cout == sa + sb + cin,
        ;
        assert(sbit * p >= 0 && sa * p >= 0 && sb * p >= 0 && cin * p >= 0 && p * cin >= 0 && (2
            * p) * cout >= 0) by (nonlinear_arith);
        assert(pow2(i as nat) * cout == (2 * p) * cout);
        assert(bits_value(s.take(i)) == bits_value(s.take(j)) + sbit * p);
        assert(bits_value(a.take(i)) == bits_value(a.take(j)) + sa * p);
        assert(bits_value(b.take(i)) == bits_value(b.take(j)) + sb * p);
        assert(bits_value(s.take(j)) + p * cin == bits_value(a.take(j)) + bits_value(b.take(j))
            + bit_as_nat(c0));
        assert(cin * p == p * cin) by (nonlinear_arith);
        assert(pow2(i as nat) * bit_as_nat(carry_chain(a, b, c0, i)) >= 0);
        assert(bits_value(s.take(i)) + pow2(i as nat) * bit_as_nat(carry_chain(a, b, c0, i))
            == bits_value(a.take(i)) + bits_value(b.take(i)) + bit_as_nat(c0));
        assert(bits_value(sum_bits(a, b, c0).take(i)) + pow2(i as nat) * bit_as_nat(
            carry_chain(a, b, c0, i),
        ) == bits_value(a.take(i)) + bits_value(b.take(i)) + bit_as_nat(c0));
    }
}

/// Rendering and parsing invert each other: the bits denoted by the rendered
/// string are the original bits.
pub proof fn lemma_render_parse_roundtrip(s: Seq<bool>)
    ensures
        parse_bits(render_bits(s)) =~= s,
        all_binary_digits(render_bits(s)),
        render_bits(s).len() == s.len(),
{
}

} // verus!
