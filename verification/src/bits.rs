//! Fixed-width bit vector: an ordered array of `N` booleans, bit 0 least
//! significant, compared and ordered by numeric value.

pub mod error;
pub mod ops;
pub mod text;

use vstd::prelude::*;
use vstd::arithmetic::power2::lemma2_to64;
use vstd::arithmetic::power2::lemma_pow2_pos;
use vstd::arithmetic::power2::lemma_pow2_strictly_increases;
use vstd::arithmetic::power2::lemma_pow2_unfold;
use vstd::arithmetic::power2::pow2;
use vstd::arithmetic::div_mod::lemma_fundamental_div_mod;
use crate::bitseq::bit_as_nat;
use crate::bitseq::bits_value;
use crate::bitseq::lemma_bits_value_bound;
use crate::bitseq::lemma_bits_value_injective;
use crate::bitseq::lemma_bits_value_split;
use crate::bitseq::lemma_bits_value_take_succ;

pub use error::BitsParseError;

verus! {

/// A value of exactly `N` bits; `bit_array[0]` is the least significant bit.
#[derive(Debug, Clone, Copy)]
pub struct Bits<const N: usize> {
    pub bit_array: [bool; N],
}

impl<const N: usize> View for Bits<N> {
    type V = Seq<bool>;

    open spec fn view(&self) -> Seq<bool> {
        self.bit_array@
    }
}

/// Two bit vectors of one width with the same bits are the same value.
pub proof fn lemma_bits_ext<const N: usize>(x: Bits<N>, y: Bits<N>)
    requires
        x@ =~= y@,
    ensures
        x == y,
{
    assert(x.bit_array =~= y.bit_array);
}

impl<const N: usize> Bits<N> {
    /// The numeric value the bits denote.
    pub open spec fn value(&self) -> nat {
        bits_value(self@)
    }

    /// The unique bit vector of this width whose value is `v`, for `v` below
    /// `pow2(N)`.
    pub open spec fn of_value(v: nat) -> Bits<N> {
        choose|b: Bits<N>| b.value() == v
    }

    /// `of_value` names the witness: any bit vector with value `v` is it.
    pub proof fn lemma_of_value(b: Bits<N>)
        ensures
            Bits::<N>::of_value(b.value()) == b,
    {
        let c = choose|c: Bits<N>| c.value() == b.value();
        assert(b.value() == b.value());
        lemma_bits_value_injective(c@, b@);
        lemma_bits_ext(c, b);
    }

    /// All-zero bit vector.
    pub fn zero() -> (r: Bits<N>)
        ensures
            r.value() == 0,
            forall|i: int| 0 <= i < N ==> !r@[i],
    {
        let r = Bits { bit_array: [false; N] };
        proof {
            crate::bitseq::lemma_bits_value_zero(r@);
        }
        r
    }

    /// The low `N` bits of `value`: the value reduced modulo `pow2(N)`.
    pub fn from_unsigned_truncated(value: u64) -> (r: Bits<N>)
        ensures
            r.value() == (value as nat) % pow2(N as nat),
            value < pow2(N as nat) ==> r.value() == value,
    {
        let mut bit_array = [false; N];
        let mut cur: u64 = value;
        let mut i: usize = 0;
        proof {
            lemma2_to64();
            crate::bitseq::lemma_bits_value_zero(bit_array@.take(0));
        }
        while i < N
            invariant
                i <= N,
                bits_value(bit_array@.take(i as int)) + pow2(i as nat) * (cur as nat) == value as nat,
                bits_value(bit_array@.take(i as int)) < pow2(i as nat),
            decreases N - i,
        {
            let ghost prev = bit_array@;
            let ghost prev_cur = cur as nat;
            let bit = cur % 2 == 1;
            bit_array[i] = bit;
            cur = cur / 2;
            proof {
                assert(bit_array@.take(i as int) =~= prev.take(i as int));
                lemma_bits_value_take_succ(bit_array@, i as int);
                assert(bit_array@[i as int] == bit);
                lemma_fundamental_div_mod(prev_cur as int, 2);
                let p = pow2(i as nat);
                lemma_pow2_unfold((i + 1) as nat);
                assert(bit_as_nat(bit) + 2 * (cur as nat) == prev_cur);
                assert(bit_as_nat(bit) * p + (2 * p) * (cur as nat) == p * prev_cur)
                    by (nonlinear_arith)
                    requires
                        bit_as_nat(bit) + 2 * (cur as nat) == prev_cur,
                        p >= 0,
                ;
                if bit {
                    assert(bit_as_nat(bit) * p == p) by (nonlinear_arith)
                        requires
                            bit_as_nat(bit) == 1,
                    ;
                } else {
                    assert(bit_as_nat(bit) * p == 0) by (nonlinear_arith)
                        requires
                            bit_as_nat(bit) == 0,
                    ;
                }
                lemma_pow2_pos((i + 1) as nat);
            }
            i += 1;
        }
        let r = Bits { bit_array };
        proof {
            assert(bit_array@.take(N as int) =~= bit_array@);
            let vr = bits_value(r@);
            let p = pow2(N as nat);
            assert(vr + p * (cur as nat) == value as nat);
            assert(p * (cur as nat) == (cur as nat) * p) by (nonlinear_arith);
            vstd::arithmetic::div_mod::lemma_fundamental_div_mod_converse(
                value as int,
                p as int,
                cur as int,
                vr as int,
            );
            if (value as nat) < p {
                lemma_pow2_pos(N as nat);
                vstd::arithmetic::div_mod::lemma_small_mod(value as nat, p);
            }
        }
        r
    }

    /// Builds the bit vector denoting `value`, or reports `OutOfBounds` when
    /// `value` needs more than `N` bits.
    pub fn try_from_unsigned_number(value: u64) -> (r: Result<Bits<N>, BitsParseError>)
        requires
            pow2(N as nat) <= usize::MAX as nat + 1,
        ensures
            (value as nat) < pow2(N as nat) ==> (r matches Ok(b) && b.value() == value),
            (value as nat) >= pow2(N as nat) ==> r == Err::<Bits<N>, BitsParseError>(
                BitsParseError::OutOfBounds {
                    value: value as usize,
                    max: (pow2(N as nat) - 1) as usize,
                },
            ),
    {
        let b = Self::from_unsigned_truncated(value);
        // `value` fits exactly when reconstructing it from the kept bits and
        // the discarded high part leaves nothing over.
        let mut check: u64 = value;
        let mut i: usize = 0;
        proof {
            lemma2_to64();
        }
        while i < N
            invariant
                i <= N,
                (check as nat) == (value as nat) / pow2(i as nat),
            decreases N - i,
        {
            let ghost prev = check as nat;
            check = check / 2;
            proof {
                lemma_pow2_unfold((i + 1) as nat);
                lemma_pow2_pos(i as nat);
                vstd::arithmetic::div_mod::lemma_div_denominator(
                    value as int,
                    pow2(i as nat) as int,
                    2,
                );
            }
            i += 1;
        }
        proof {
            lemma_pow2_pos(N as nat);
            if (value as nat) < pow2(N as nat) {
                vstd::arithmetic::div_mod::lemma_basic_div(value as int, pow2(N as nat) as int);
            } else {
                vstd::arithmetic::div_mod::lemma_div_non_zero(
                    value as int,
                    pow2(N as nat) as int,
                );
            }
        }
        if check == 0 {
            proof {
                vstd::arithmetic::div_mod::lemma_small_mod(value as nat, pow2(N as nat));
            }
            Ok(b)
        } else {
            let max = Self::max_value_usize();
            Err(BitsParseError::OutOfBounds { value: value as usize, max })
        }
    }

    /// The largest value of this width, `pow2(N) - 1`, as a `usize`.
    fn max_value_usize() -> (r: usize)
        requires
            pow2(N as nat) <= usize::MAX as nat + 1,
        ensures
            r == (pow2(N as nat) - 1) as usize,
    {
        let mut r: usize = 0;
        let mut i: usize = 0;
        proof {
            lemma2_to64();
        }
        while i < N
            invariant
                i <= N,
                r == (pow2(i as nat) - 1) as usize,
                pow2(N as nat) <= usize::MAX as nat + 1,
            decreases N - i,
        {
            proof {
                lemma_pow2_unfold((i + 1) as nat);
                lemma_pow2_pos(i as nat);
                if i + 1 < N {
                    lemma_pow2_strictly_increases((i + 1) as nat, N as nat);
                }
            }
            r = r * 2 + 1;
            i += 1;
        }
        r
    }

    /// Value of the bits as a machine word.
    pub fn to_usize(self) -> (r: usize)
        requires
            pow2(N as nat) <= usize::MAX as nat + 1,
        ensures
            r == self.value(),
    {
        let ghost s = self@;
        let mut acc: usize = 0;
        let mut i: usize = N;
        proof {
            assert(s.skip(N as int) =~= Seq::<bool>::empty());
        }
        while i > 0
            invariant
                i <= N,
                s == self@,
                acc == bits_value(s.skip(i as int)),
                pow2(N as nat) <= usize::MAX as nat + 1,
            decreases i,
        {
            i -= 1;
            proof {
                let sk = s.skip(i as int);
                assert(sk.skip(1) =~= s.skip(i as int + 1));
                assert(sk[0] == s[i as int]);
                lemma_bits_value_bound(sk);
                if (N - i) < N {
                    lemma_pow2_strictly_increases((N - i) as nat, N as nat);
                }
            }
            acc = 2 * acc + (if self.bit_array[i] {
                1
            } else {
                0
            });
        }
        proof {
            assert(s.skip(0) =~= s);
        }
        acc
    }

    /// Changes the width: keeps the low bits in common, zero-fills above the
    /// old width when growing, drops the high bits when shrinking.
    pub fn resize<const M: usize>(self) -> (r: Bits<M>)
        ensures
            forall|i: int|
                0 <= i < M ==> r@[i] == (if i < N {
                    self@[i]
                } else {
                    false
                }),
            r.value() == self.value() % pow2(M as nat),
    {
        let mut out = [false; M];
        let min_len = if N < M {
            N
        } else {
            M
        };
        let mut i: usize = 0;
        while i < min_len
            invariant
                i <= min_len,
                min_len == if N < M {
                    N
                } else {
                    M
                },
                out.len() == M,
                forall|j: int| 0 <= j < i ==> out@[j] == self@[j],
                forall|j: int| i <= j < M ==> !out@[j],
            decreases min_len - i,
        {
            out[i] = self.bit_array[i];
            i += 1;
        }
        let r = Bits::<M> { bit_array: out };
        proof {
            Self::lemma_resize_value(self@, r@);
        }
        r
    }

    /// Truncating a bit sequence to `M` bits reduces its value modulo
    /// `pow2(M)`; zero-extending keeps it.
    proof fn lemma_resize_value(s: Seq<bool>, t: Seq<bool>)
        requires
            s.len() == N,
            forall|i: int|
                0 <= i < t.len() ==> t[i] == (if i < s.len() {
                    s[i]
                } else {
                    false
                }),
        ensures
            bits_value(t) == bits_value(s) % pow2(t.len()),
    {
        let m = t.len() as int;
        lemma_pow2_pos(t.len());
        if m <= s.len() {
            lemma_bits_value_split(s, m);
            assert(s.take(m) =~= t);
            lemma_bits_value_bound(t);
            assert(pow2(t.len()) * bits_value(s.skip(m)) == bits_value(s.skip(m)) * pow2(t.len()))
                by (nonlinear_arith);
            vstd::arithmetic::div_mod::lemma_fundamental_div_mod_converse(
                bits_value(s) as int,
                pow2(t.len()) as int,
                bits_value(s.skip(m)) as int,
                bits_value(t) as int,
            );
        } else {
            lemma_bits_value_split(t, s.len() as int);
            assert(t.take(s.len() as int) =~= s);
            crate::bitseq::lemma_bits_value_zero(t.skip(s.len() as int));
            lemma_bits_value_bound(s);
            assert(pow2(s.len()) * 0 == 0) by (nonlinear_arith);
            lemma_pow2_strictly_increases(s.len(), t.len());
            vstd::arithmetic::div_mod::lemma_small_mod(bits_value(s), pow2(t.len()));
        }
    }
}

/// `pow2(e)` as a machine word.
pub fn pow2_u64(e: usize) -> (r: u64)
    requires
        e <= 63,
    ensures
        r == pow2(e as nat),
{
    let mut r: u64 = 1;
    let mut k: usize = 0;
    proof {
        lemma2_to64();
    }
    while k < e
        invariant
            k <= e,
            e <= 63,
            r == pow2(k as nat),
        decreases e - k,
    {
        proof {
            lemma_pow2_unfold((k + 1) as nat);
            if k + 1 < 63 {
                lemma_pow2_strictly_increases((k + 1) as nat, 63);
            }
            lemma2_to64();
            vstd::arithmetic::power2::lemma2_to64_rest();
        }
        r = r * 2;
        k += 1;
    }
    r
}

impl<const N: usize> Bits<N> {
    /// Value of the low `k` bits as a machine word.
    fn low_bits_value_u64(&self, k: usize) -> (r: u64)
        requires
            k <= N,
            pow2(k as nat) <= u64::MAX as nat + 1,
        ensures
            r == bits_value(self@.take(k as int)),
    {
        let ghost s = self@;
        let mut acc: u64 = 0;
        let mut i: usize = k;
        proof {
            assert(s.subrange(k as int, k as int) =~= Seq::<bool>::empty());
        }
        while i > 0
            invariant
                i <= k,
                k <= N,
                s == self@,
                acc == bits_value(s.subrange(i as int, k as int)),
                pow2(k as nat) <= u64::MAX as nat + 1,
            decreases i,
        {
            i -= 1;
            proof {
                let sk = s.subrange(i as int, k as int);
                assert(sk.skip(1) =~= s.subrange(i as int + 1, k as int));
                assert(sk[0] == s[i as int]);
                lemma_bits_value_bound(sk);
                if (k - i) < k {
                    lemma_pow2_strictly_increases((k - i) as nat, k as nat);
                }
            }
            acc = 2 * acc + (if self.bit_array[i] {
                1
            } else {
                0
            });
        }
        proof {
            assert(s.subrange(0, k as int) =~= s.take(k as int));
        }
        acc
    }

    /// The bits read as an `N`-bit two's-complement number.
    pub fn to_signed(&self) -> (r: i64)
        requires
            1 <= N <= 63,
        ensures
            r == (if self@[N - 1] {
                self.value() as int - pow2(N as nat)
            } else {
                self.value() as int
            }),
    {
        proof {
            lemma_pow2_strictly_increases((N - 1) as nat, 64);
            vstd::arithmetic::power2::lemma2_to64_rest();
            if (N - 1) < 63 {
                lemma_pow2_strictly_increases((N - 1) as nat, 63);
            }
        }
        let low = self.low_bits_value_u64(N - 1);
        proof {
            lemma_bits_value_split(self@, N as int - 1);
            assert(self@.skip(N as int - 1) =~= seq![self@[N - 1]]);
            crate::bitseq::lemma_bits_value_single(self@[N - 1]);
            lemma_bits_value_bound(self@.take(N as int - 1));
            lemma_pow2_unfold(N as nat);
            let p = pow2((N - 1) as nat);
            if self@[N - 1] {
                assert(p * bit_as_nat(self@[N - 1]) == p) by (nonlinear_arith)
                    requires
                        bit_as_nat(self@[N - 1]) == 1,
                ;
            } else {
                assert(p * bit_as_nat(self@[N - 1]) == 0) by (nonlinear_arith)
                    requires
                        bit_as_nat(self@[N - 1]) == 0,
                ;
            }
        }
        if self.bit_array[N - 1] {
            (low as i64) - (pow2_u64(N - 1) as i64)
        } else {
            low as i64
        }
    }

    /// Builds the bit vector denoting `value` in two's complement, or reports
    /// `OutOfBounds` when `value` is outside `[-pow2(N-1), pow2(N-1))`.
    pub fn try_from_signed_number(value: i64) -> (r: Result<Bits<N>, BitsParseError>)
        requires
            1 <= N <= 63,
            pow2(N as nat) <= usize::MAX as nat + 1,
        ensures
            -(pow2((N - 1) as nat) as int) <= value < pow2((N - 1) as nat) ==> (r matches Ok(b)
                && b.value() as int == (if value >= 0 {
                value as int
            } else {
                value + pow2(N as nat)
            })),
            !(-(pow2((N - 1) as nat) as int) <= value < pow2((N - 1) as nat)) ==> r == Err::<
                Bits<N>,
                BitsParseError,
            >(
                BitsParseError::OutOfBounds {
                    value: value as usize,
                    max: (pow2((N - 1) as nat) - 1) as usize,
                },
            ),
    {
        proof {
            lemma_pow2_unfold(N as nat);
            lemma_pow2_pos((N - 1) as nat);
            if N < 64 {
                vstd::arithmetic::power2::lemma2_to64_rest();
                if (N as nat) < 63 {
                    lemma_pow2_strictly_increases(N as nat, 63);
                }
            }
        }
        let half = pow2_u64(N - 1);
        let in_range = if value >= 0 {
            (value as u64) < half
        } else {
            // `-value` would overflow only at i64::MIN, which `N <= 63` keeps
            // out of range anyway; compare magnitudes shifted by one.
            value >= -(half as i64)
        };
        if !in_range {
            let max_mag = half - 1;
            return Err(
                BitsParseError::OutOfBounds {
                    value: #[verifier::truncate] (value as usize),
                    max: #[verifier::truncate] (max_mag as usize),
                },
            );
        }
        if value >= 0 {
            let b = Self::from_unsigned_truncated(value as u64);
            proof {
                lemma_pow2_strictly_increases((N - 1) as nat, N as nat);
            }
            Ok(b)
        } else {
            // two's complement: value + pow2(N) == (pow2(N) - 1) - (-value - 1)
            let mag: u64 = (-(value + 1)) as u64;
            let x: u64 = (pow2_u64(N) - 1) - mag;
            let b = Self::from_unsigned_truncated(x);
            proof {
                lemma_pow2_strictly_increases((N - 1) as nat, N as nat);
            }
            Ok(b)
        }
    }

    /// A contiguous sub-range of `M` bits beginning at bit `start`.
    pub fn slice<const M: usize>(&self, start: usize) -> (r: Bits<M>)
        requires
            start + M <= N,
        ensures
            r@ == self@.subrange(start as int, start as int + M as int),
    {
        let mut out = [false; M];
        let mut i: usize = 0;
        while i < M
            invariant
                i <= M,
                start + M <= N,
                forall|j: int| 0 <= j < i ==> out@[j] == self@[start + j],
            decreases M - i,
        {
            out[i] = self.bit_array[start + i];
            i += 1;
        }
        let r = Bits::<M> { bit_array: out };
        proof {
            assert(r@ =~= self@.subrange(start as int, start as int + M as int));
        }
        r
    }

    /// The bits cut into `N / CHUNK_SIZE` pieces of `CHUNK_SIZE` bits each,
    /// most significant chunk first.
    pub fn split_into_chunks<const CHUNK_SIZE: usize>(self) -> (r: Vec<Bits<CHUNK_SIZE>>)
        requires
            CHUNK_SIZE >= 1,
            N % CHUNK_SIZE == 0,
        ensures
            r@.len() == N / CHUNK_SIZE,
            forall|k: int|
                0 <= k < r@.len() ==> r@[k]@ == self@.subrange(
                    (N / CHUNK_SIZE - 1 - k) * CHUNK_SIZE as int,
                    (N / CHUNK_SIZE - k) * CHUNK_SIZE as int,
                ),
    {
        let count = N / CHUNK_SIZE;
        let mut chunks: Vec<Bits<CHUNK_SIZE>> = Vec::new();
        let mut k: usize = 0;
        while k < count
            invariant
                k <= count,
                count == N / CHUNK_SIZE,
                CHUNK_SIZE >= 1,
                N % CHUNK_SIZE == 0,
                chunks@.len() == k,
                forall|j: int|
                    0 <= j < k ==> chunks@[j]@ == self@.subrange(
                        (count - 1 - j) * CHUNK_SIZE as int,
                        (count - j) * CHUNK_SIZE as int,
                    ),
            decreases count - k,
        {
            proof {
                vstd::arithmetic::div_mod::lemma_fundamental_div_mod(N as int, CHUNK_SIZE as int);
                assert((count - 1 - k) * CHUNK_SIZE as int >= 0 && (count - k) * CHUNK_SIZE as int
                    <= N) by (nonlinear_arith)
                    requires
                        0 <= k < count,
                        CHUNK_SIZE >= 1,
                        N == CHUNK_SIZE * count,
                ;
                assert((count - 1 - k) * CHUNK_SIZE as int + CHUNK_SIZE as int == (count - k)
                    * CHUNK_SIZE as int) by (nonlinear_arith);
            }
            let start = (count - 1 - k) * CHUNK_SIZE;
            let piece = self.slice::<CHUNK_SIZE>(start);
            chunks.push(piece);
            k += 1;
        }
        chunks
    }
}

impl<const N: usize> PartialEq for Bits<N> {
    fn eq(&self, other: &Self) -> (r: bool) {
        let mut i: usize = 0;
        while i < N
            invariant
                i <= N,
                forall|j: int| 0 <= j < i ==> self@[j] == other@[j],
            decreases N - i,
        {
            if self.bit_array[i] != other.bit_array[i] {
                proof {
                    assert(self@[i as int] != other@[i as int]);
                }
                return false;
            }
            i += 1;
        }
        proof {
            assert(self@ =~= other@);
        }
        true
    }
}

impl<const N: usize> Eq for Bits<N> {

}

impl<const N: usize> vstd::std_specs::cmp::PartialEqSpecImpl for Bits<N> {
    open spec fn obeys_eq_spec() -> bool {
        true
    }

    open spec fn eq_spec(&self, other: &Self) -> bool {
        self@ == other@
    }
}

impl<const N: usize> PartialOrd for Bits<N> {
    fn partial_cmp(&self, other: &Self) -> (r: Option<core::cmp::Ordering>) {
        let mut i: usize = N;
        while i > 0
            invariant
                i <= N,
                forall|j: int| i <= j < N ==> self@[j] == other@[j],
            decreases i,
        {
            i -= 1;
            if self.bit_array[i] != other.bit_array[i] {
                if self.bit_array[i] {
                    proof {
                        crate::bitseq::lemma_bits_value_msb_order(self@, other@, i as int);
                    }
                    return Some(core::cmp::Ordering::Greater);
                } else {
                    proof {
                        crate::bitseq::lemma_bits_value_msb_order(other@, self@, i as int);
                    }
                    return Some(core::cmp::Ordering::Less);
                }
            }
        }
        proof {
            assert(self@ =~= other@);
        }
        Some(core::cmp::Ordering::Equal)
    }
}

impl<const N: usize> vstd::std_specs::cmp::PartialOrdSpecImpl for Bits<N> {
    open spec fn obeys_partial_cmp_spec() -> bool {
        true
    }

    open spec fn partial_cmp_spec(&self, other: &Self) -> Option<core::cmp::Ordering> {
        if self.value() < other.value() {
            Some(core::cmp::Ordering::Less)
        } else if self.value() == other.value() {
            Some(core::cmp::Ordering::Equal)
        } else {
            Some(core::cmp::Ordering::Greater)
        }
    }
}

impl From<u8> for Bits<8> {
    fn from(value: u8) -> (r: Bits<8>) {
        let r = Bits::<8>::from_unsigned_truncated(value as u64);
        proof {
            lemma2_to64();
            Bits::<8>::lemma_of_value(r);
        }
        r
    }
}

impl vstd::std_specs::convert::FromSpecImpl<u8> for Bits<8> {
    open spec fn obeys_from_spec() -> bool {
        true
    }

    open spec fn from_spec(v: u8) -> Bits<8> {
        Bits::<8>::of_value(v as nat)
    }
}

impl From<u16> for Bits<16> {
    fn from(value: u16) -> (r: Bits<16>) {
        let r = Bits::<16>::from_unsigned_truncated(value as u64);
        proof {
            lemma2_to64();
            Bits::<16>::lemma_of_value(r);
        }
        r
    }
}

impl vstd::std_specs::convert::FromSpecImpl<u16> for Bits<16> {
    open spec fn obeys_from_spec() -> bool {
        true
    }

    open spec fn from_spec(v: u16) -> Bits<16> {
        Bits::<16>::of_value(v as nat)
    }
}

impl From<i8> for Bits<8> {
    fn from(value: i8) -> (r: Bits<8>) {
        proof {
            lemma2_to64();
        }
        let r = match Bits::<8>::try_from_signed_number(value as i64) {
            Ok(b) => b,
            Err(_) => {
                proof {
                    lemma2_to64();
                    assert(false);
                }
                Bits::<8>::zero()
            },
        };
        proof {
            lemma2_to64();
            Bits::<8>::lemma_of_value(r);
        }
        r
    }
}

impl vstd::std_specs::convert::FromSpecImpl<i8> for Bits<8> {
    open spec fn obeys_from_spec() -> bool {
        true
    }

    open spec fn from_spec(v: i8) -> Bits<8> {
        Bits::<8>::of_value(
            (if v >= 0 {
                v as int
            } else {
                v + 256
            }) as nat,
        )
    }
}

impl From<i16> for Bits<16> {
    fn from(value: i16) -> (r: Bits<16>) {
        proof {
            lemma2_to64();
        }
        let r = match Bits::<16>::try_from_signed_number(value as i64) {
            Ok(b) => b,
            Err(_) => {
                proof {
                    lemma2_to64();
                    assert(false);
                }
                Bits::<16>::zero()
            },
        };
        proof {
            lemma2_to64();
            Bits::<16>::lemma_of_value(r);
        }
        r
    }
}

impl vstd::std_specs::convert::FromSpecImpl<i16> for Bits<16> {
    open spec fn obeys_from_spec() -> bool {
        true
    }

    open spec fn from_spec(v: i16) -> Bits<16> {
        Bits::<16>::of_value(
            (if v >= 0 {
                v as int
            } else {
                v + 65536
            }) as nat,
        )
    }
}

impl<const N: usize> From<[bool; N]> for Bits<N> {
    fn from(value: [bool; N]) -> (r: Bits<N>) {
        Bits { bit_array: value }
    }
}

impl<const N: usize> vstd::std_specs::convert::FromSpecImpl<[bool; N]> for Bits<N> {
    open spec fn obeys_from_spec() -> bool {
        true
    }

    open spec fn from_spec(v: [bool; N]) -> Bits<N> {
        Bits { bit_array: v }
    }
}

} // verus!
