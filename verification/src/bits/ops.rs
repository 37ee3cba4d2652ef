//! Arithmetic, logical and shift operations on bit vectors: ripple-carry
//! addition, two's-complement subtraction, pointwise logic, and shifts whose
//! amount is itself a bit vector.

use vstd::prelude::*;
use vstd::arithmetic::power2::pow2;
use vstd::arithmetic::power2::lemma_pow2_pos;
use crate::bits::Bits;
use crate::bitseq::bit_as_nat;
use crate::bitseq::bits_not;
use crate::bitseq::bits_value;
use crate::bitseq::carry_chain;
use crate::bitseq::lemma_bits_value_bound;
use crate::bitseq::lemma_bits_value_not;
use crate::bitseq::lemma_ripple_adder;
use crate::bitseq::sum_bits;

verus! {

/// Ripple-carry core shared by addition and subtraction: adds `a` and the
/// bits of `b` (complemented when `invert_b` is set) with initial carry `c0`.
fn ripple_add<const N: usize>(a: &Bits<N>, b: &Bits<N>, invert_b: bool, c0: bool) -> (r: (
    Bits<N>,
    bool,
))
    ensures
        ({
            let bb = if invert_b {
                bits_not(b@)
            } else {
                b@
            };
            r.0@ == sum_bits(a@, bb, c0) && r.1 == carry_chain(a@, bb, c0, N as int)
        }),
{
    let ghost bb = if invert_b {
        bits_not(b@)
    } else {
        b@
    };
    let mut out = [false; N];
    let mut carry = c0;
    let mut i: usize = 0;
    while i < N
        invariant
            i <= N,
            bb == if invert_b {
                bits_not(b@)
            } else {
                b@
            },
            carry == carry_chain(a@, bb, c0, i as int),
            forall|j: int| 0 <= j < i ==> out@[j] == sum_bits(a@, bb, c0)[j],
        decreases N - i,
    {
        let ai = a.bit_array[i];
        let bi = if invert_b {
            !b.bit_array[i]
        } else {
            b.bit_array[i]
        };
        proof {
            assert(bb[i as int] == bi);
        }
        out[i] = (ai != bi) != carry;
        carry = (ai && bi) || ((ai || bi) && carry);
        proof {
            assert(carry_chain(a@, bb, c0, i + 1) == ((a@[i as int] && bb[i as int]) || ((a@[
                i as int
            ] || bb[i as int]) && carry_chain(a@, bb, c0, i as int))));
            assert(sum_bits(a@, bb, c0)[i as int] == ((a@[i as int] != bb[i as int])
                != carry_chain(a@, bb, c0, i as int)));
        }
        i += 1;
    }
    let r = Bits { bit_array: out };
    proof {
        assert(r@ =~= sum_bits(a@, bb, c0));
    }
    (r, carry)
}

impl<const N: usize> Bits<N> {
    /// Sum modulo `pow2(N)`; the second result is the carry out of the top
    /// bit.
    pub fn overflowing_add(self, rhs: Bits<N>) -> (r: (Bits<N>, bool))
        ensures
            r.0.value() == (self.value() + rhs.value()) % pow2(N as nat),
            r.1 == (self.value() + rhs.value() >= pow2(N as nat)),
    {
        let (out, carry) = ripple_add(&self, &rhs, false, false);
        proof {
            lemma_ripple_adder(self@, rhs@, false, N as int);
            assert(self@.take(N as int) =~= self@);
            assert(rhs@.take(N as int) =~= rhs@);
            assert(sum_bits(self@, rhs@, false).take(N as int) =~= sum_bits(self@, rhs@, false));
            lemma_bits_value_bound(out@);
            lemma_pow2_pos(N as nat);
            let p = pow2(N as nat) as int;
            let q = bit_as_nat(carry) as int;
            assert(p * q == q * p) by (nonlinear_arith);
            vstd::arithmetic::div_mod::lemma_fundamental_div_mod_converse(
                self.value() as int + rhs.value() as int,
                p,
                q,
                out.value() as int,
            );
            if carry {
                assert(p * q == p) by (nonlinear_arith)
                    requires
                        q == 1,
                ;
            } else {
                assert(p * q == 0) by (nonlinear_arith)
                    requires
                        q == 0,
                ;
            }
        }
        (out, carry)
    }

    /// Sum modulo `pow2(N)`: addition wraps silently on overflow.
    pub fn wrapping_add(self, rhs: Bits<N>) -> (r: Bits<N>)
        ensures
            r.value() == (self.value() + rhs.value()) % pow2(N as nat),
    {
        self.overflowing_add(rhs).0
    }

    /// Two's-complement difference modulo `pow2(N)`; the second result is the
    /// carry out of the top bit, which is set exactly when no borrow occurred,
    /// that is when `self >= rhs`.
    pub fn overflowing_sub(self, rhs: Bits<N>) -> (r: (Bits<N>, bool))
        ensures
            r.0.value() as int == (self.value() - rhs.value()) % (pow2(N as nat) as int),
            r.1 == (self.value() >= rhs.value()),
    {
        let (out, carry) = ripple_add(&self, &rhs, true, true);
        proof {
            let nb = bits_not(rhs@);
            lemma_ripple_adder(self@, nb, true, N as int);
            assert(self@.take(N as int) =~= self@);
            assert(nb.take(N as int) =~= nb);
            assert(sum_bits(self@, nb, true).take(N as int) =~= sum_bits(self@, nb, true));
            lemma_bits_value_not(rhs@);
            lemma_bits_value_bound(out@);
            lemma_bits_value_bound(rhs@);
            lemma_pow2_pos(N as nat);
            let p = pow2(N as nat) as int;
            // the adder computed self + (p - 1 - rhs) + 1 == self - rhs + p
            let q = bit_as_nat(carry) as int;
            assert(out.value() + p * q == self.value() - rhs.value() + p);
            if carry {
                assert(p * q == p) by (nonlinear_arith)
                    requires
                        q == 1,
                ;
                assert(0 * p == 0) by (nonlinear_arith);
                vstd::arithmetic::div_mod::lemma_fundamental_div_mod_converse(
                    self.value() - rhs.value(),
                    p,
                    0,
                    out.value() as int,
                );
            } else {
                assert(p * q == 0) by (nonlinear_arith)
                    requires
                        q == 0,
                ;
                assert((-1) * p == -p) by (nonlinear_arith);
                vstd::arithmetic::div_mod::lemma_fundamental_div_mod_converse(
                    self.value() - rhs.value(),
                    p,
                    -1,
                    out.value() as int,
                );
            }
        }
        (out, carry)
    }

    /// Two's-complement difference modulo `pow2(N)`: wraps below zero.
    pub fn wrapping_sub(self, rhs: Bits<N>) -> (r: Bits<N>)
        ensures
            r.value() as int == (self.value() - rhs.value()) % (pow2(N as nat) as int),
    {
        self.overflowing_sub(rhs).0
    }

    /// Pointwise conjunction.
    pub fn bitand(self, rhs: Bits<N>) -> (r: Bits<N>)
        ensures
            r@.len() == N,
            forall|i: int| 0 <= i < N ==> r@[i] == (self@[i] && rhs@[i]),
    {
        let mut out = [false; N];
        let mut i: usize = 0;
        while i < N
            invariant
                i <= N,
                forall|j: int| 0 <= j < i ==> out@[j] == (self@[j] && rhs@[j]),
                forall|j: int| i <= j < N ==> !out@[j],
            decreases N - i,
        {
            out[i] = self.bit_array[i] && rhs.bit_array[i];
            i += 1;
        }
        Bits { bit_array: out }
    }

    /// Pointwise disjunction.
    pub fn bitor(self, rhs: Bits<N>) -> (r: Bits<N>)
        ensures
            r@.len() == N,
            forall|i: int| 0 <= i < N ==> r@[i] == (self@[i] || rhs@[i]),
    {
        let mut out = [false; N];
        let mut i: usize = 0;
        while i < N
            invariant
                i <= N,
                forall|j: int| 0 <= j < i ==> out@[j] == (self@[j] || rhs@[j]),
            decreases N - i,
        {
            out[i] = self.bit_array[i] || rhs.bit_array[i];
            i += 1;
        }
        Bits { bit_array: out }
    }

    /// Pointwise exclusive or.
    pub fn bitxor(self, rhs: Bits<N>) -> (r: Bits<N>)
        ensures
            r@.len() == N,
            forall|i: int| 0 <= i < N ==> r@[i] == (self@[i] != rhs@[i]),
    {
        let mut out = [false; N];
        let mut i: usize = 0;
        while i < N
            invariant
                i <= N,
                forall|j: int| 0 <= j < i ==> out@[j] == (self@[j] != rhs@[j]),
            decreases N - i,
        {
            out[i] = self.bit_array[i] != rhs.bit_array[i];
            i += 1;
        }
        Bits { bit_array: out }
    }

    /// Pointwise complement.
    pub fn bitnot(self) -> (r: Bits<N>)
        ensures
            r@ == bits_not(self@),
            r.value() + self.value() + 1 == pow2(N as nat),
    {
        let mut out = [false; N];
        let mut i: usize = 0;
        while i < N
            invariant
                i <= N,
                forall|j: int| 0 <= j < i ==> out@[j] == !self@[j],
            decreases N - i,
        {
            out[i] = !self.bit_array[i];
            i += 1;
        }
        let r = Bits { bit_array: out };
        proof {
            assert(r@ =~= bits_not(self@));
            lemma_bits_value_not(self@);
        }
        r
    }

    /// Logical right shift by the value of `rhs`, filling with zeros.
    pub fn shr(self, rhs: Bits<N>) -> (r: Bits<N>)
        requires
            rhs.value() < N,
            pow2(N as nat) <= usize::MAX as nat + 1,
        ensures
            forall|i: int|
                0 <= i < N ==> r@[i] == (if i + rhs.value() < N {
                    self@[i + rhs.value()]
                } else {
                    false
                }),
    {
        let amount = rhs.to_usize();
        let mut out = [false; N];
        let mut i: usize = 0;
        while i < N - amount
            invariant
                amount < N,
                i <= N - amount,
                amount == rhs.value(),
                forall|j: int| 0 <= j < i ==> out@[j] == self@[j + amount],
                forall|j: int| i <= j < N ==> !out@[j],
            decreases N - amount - i,
        {
            out[i] = self.bit_array[i + amount];
            i += 1;
        }
        Bits { bit_array: out }
    }

    /// Left shift by the value of `rhs`, filling with zeros.
    pub fn shl(self, rhs: Bits<N>) -> (r: Bits<N>)
        requires
            rhs.value() < N,
            pow2(N as nat) <= usize::MAX as nat + 1,
        ensures
            forall|i: int|
                0 <= i < N ==> r@[i] == (if i >= rhs.value() {
                    self@[i - rhs.value()]
                } else {
                    false
                }),
    {
        let amount = rhs.to_usize();
        let mut out = [false; N];
        let mut i: usize = amount;
        while i < N
            invariant
                amount < N,
                amount <= i <= N,
                amount == rhs.value(),
                forall|j: int| amount <= j < i ==> out@[j] == self@[j - amount],
                forall|j: int| 0 <= j < amount ==> !out@[j],
                forall|j: int| i <= j < N ==> !out@[j],
            decreases N - i,
        {
            out[i] = self.bit_array[i - amount];
            i += 1;
        }
        Bits { bit_array: out }
    }
}

} // verus!
