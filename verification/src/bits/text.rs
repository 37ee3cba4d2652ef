//! Textual form of bit vectors: rendering most-significant-bit-first binary
//! strings, and parsing binary or decimal strings back into bit vectors.

use vstd::prelude::*;
use vstd::string::StrSliceExecFns;
use vstd::string::StringExecFns;
use vstd::arithmetic::power2::pow2;
use crate::bits::Bits;
use crate::bits::BitsParseError;
use crate::bitseq::all_binary_digits;
use crate::bitseq::parse_bits;
use crate::bitseq::render_bits;
use crate::error::VmError;

verus! {

/// A decimal digit.
pub open spec fn is_dec_digit(c: char) -> bool {
    48 <= c as int && c as int <= 57
}

/// A string of decimal digits only.
pub open spec fn all_dec_digits(t: Seq<char>) -> bool {
    forall|i: int| 0 <= i < t.len() ==> is_dec_digit(t[i])
}

/// Numeric value of a decimal digit; unspecified input gives zero.
pub open spec fn digit_val(c: char) -> nat {
    if is_dec_digit(c) {
        (c as int - 48) as nat
    } else {
        0
    }
}

/// The number a string of decimal digits denotes, most significant first.
pub open spec fn dec_value(t: Seq<char>) -> nat
    decreases t.len(),
{
    if t.len() == 0 {
        0
    } else {
        dec_value(t.drop_last()) * 10 + digit_val(t.last())
    }
}

/// The character for a decimal digit; unspecified input gives '0'.
pub open spec fn digit_char(d: nat) -> char {
    if d == 1 {
        '1'
    } else if d == 2 {
        '2'
    } else if d == 3 {
        '3'
    } else if d == 4 {
        '4'
    } else if d == 5 {
        '5'
    } else if d == 6 {
        '6'
    } else if d == 7 {
        '7'
    } else if d == 8 {
        '8'
    } else if d == 9 {
        '9'
    } else {
        '0'
    }
}

/// The decimal rendering of a number, most significant digit first, with no
/// leading zeros except for zero itself.
pub open spec fn dec_digits(n: nat) -> Seq<char>
    decreases n,
{
    if n < 10 {
        seq![digit_char(n)]
    } else {
        dec_digits(n / 10).push(digit_char(n % 10))
    }
}

/// The character for digit `d`, as a one-character string.
fn digit_str(d: u64) -> (r: &'static str)
    requires
        d < 10,
    ensures
        r@ =~= seq![digit_char(d as nat)],
{
    proof {
        reveal_strlit("0");
        reveal_strlit("1");
        reveal_strlit("2");
        reveal_strlit("3");
        reveal_strlit("4");
        reveal_strlit("5");
        reveal_strlit("6");
        reveal_strlit("7");
        reveal_strlit("8");
        reveal_strlit("9");
    }
    if d == 1 {
        "1"
    } else if d == 2 {
        "2"
    } else if d == 3 {
        "3"
    } else if d == 4 {
        "4"
    } else if d == 5 {
        "5"
    } else if d == 6 {
        "6"
    } else if d == 7 {
        "7"
    } else if d == 8 {
        "8"
    } else if d == 9 {
        "9"
    } else {
        "0"
    }
}

/// Renders a number in decimal, most significant digit first.
pub fn u64_to_dec_string(n: u64) -> (s: String)
    ensures
        s@ == dec_digits(n as nat),
    decreases n,
{
    if n < 10 {
        let s = String::from_str(digit_str(n));
        proof {
            assert(s@ =~= dec_digits(n as nat));
        }
        s
    } else {
        let mut s = u64_to_dec_string(n / 10);
        s.append(digit_str(n % 10));
        proof {
            assert(s@ =~= dec_digits(n as nat));
        }
        s
    }
}

/// A digit prefix denotes no more than the whole string.
pub proof fn lemma_dec_value_take_le(t: Seq<char>, k: int)
    requires
        0 <= k <= t.len(),
    ensures
        dec_value(t.take(k)) <= dec_value(t),
    decreases t.len(),
{
    if k == t.len() {
        assert(t.take(k) =~= t);
    } else {
        let u = t.drop_last();
        assert(t.take(k) =~= u.take(k));
        lemma_dec_value_take_le(u, k);
    }
}

/// The index of the rightmost character that is not a binary digit; callers
/// use it only when one exists.
pub open spec fn last_non_binary(t: Seq<char>) -> int {
    choose|i: int|
        0 <= i < t.len() && !(t[i] == '0' || t[i] == '1') && (forall|j: int|
            i < j < t.len() ==> t[j] == '0' || t[j] == '1')
}

/// Reads a string of decimal digits; `None` when the string is empty, has a
/// non-digit, or denotes a number over `u64::MAX`.
pub fn parse_dec_u64(s: &str) -> (r: Option<u64>)
    ensures
        r matches Some(v) <==> (s@.len() > 0 && all_dec_digits(s@) && dec_value(s@)
            <= u64::MAX as nat),
        r matches Some(v) ==> v == dec_value(s@),
{
    let n = s.unicode_len();
    if n == 0 {
        return None;
    }
    let mut acc: u64 = 0;
    let mut i: usize = 0;
    proof {
        assert(s@.take(0).len() == 0);
    }
    while i < n
        invariant
            i <= n,
            n == s@.len(),
            all_dec_digits(s@.take(i as int)),
            acc == dec_value(s@.take(i as int)),
        decreases n - i,
    {
        let c = s.get_char(i);
        let cu = c as u32;
        if cu < 48 || cu > 57 {
            proof {
                assert(!is_dec_digit(s@[i as int]));
            }
            return None;
        }
        let d: u64 = (cu - 48) as u64;
        proof {
            assert(d == digit_val(s@[i as int]));
            assert(s@.take(i + 1).drop_last() =~= s@.take(i as int));
            assert(s@.take(i + 1).last() == s@[i as int]);
        }
        if acc > (u64::MAX - d) / 10 {
            proof {
                let m = u64::MAX as int;
                vstd::arithmetic::div_mod::lemma_fundamental_div_mod(m - d, 10);
                assert(acc * 10 + d > m);
                lemma_dec_value_take_le(s@, i + 1);
            }
            return None;
        }
        acc = acc * 10 + d;
        i += 1;
    }
    proof {
        assert(s@.take(n as int) =~= s@);
    }
    Some(acc)
}

/// What reading a bit vector from text returns: a `-`-prefixed decimal is a
/// two's-complement value, an exact-width string (after an optional `0b`
/// prefix) is binary, a shorter string is decimal, and a longer one reports
/// its length.
/// A string padded at the front with '0' up to length `n`.
pub open spec fn zero_pad(u: Seq<char>, n: int) -> Seq<char> {
    Seq::new((n - u.len()) as nat, |i: int| '0') + u
}

/// What reading an exact-width binary string returns.
pub open spec fn spec_binary_case<const N: usize>(u: Seq<char>, r: Result<Bits<N>, VmError>) -> bool {
    if all_binary_digits(u) {
        r matches Ok(b) && b@ == parse_bits(u)
    } else {
        r == Err::<Bits<N>, VmError>(
            VmError::Bits(BitsParseError::Character { character: u[last_non_binary(u)] }),
        )
    }
}

pub open spec fn spec_from_str<const N: usize>(t: Seq<char>, r: Result<Bits<N>, VmError>) -> bool {
    let u = Bits::<N>::spec_strip_binary_prefix(t);
    if t.len() > 0 && t[0] == '-' {
        Bits::<N>::spec_from_str_signed(t, r)
    } else if u.len() > N {
        r matches Err(VmError::Bits(BitsParseError::Length { expected, found, string }))
            && expected == N && found == u.len() && string@ == u
    } else if t.len() >= 2 && t[0] == '0' && t[1] == 'b' {
        spec_binary_case::<N>(zero_pad(u, N as int), r)
    } else if u.len() < N {
        Bits::<N>::spec_from_str_decimal(u, r)
    } else {
        spec_binary_case::<N>(u, r)
    }
}

impl<const N: usize> Bits<N> {
    /// The bits as a binary string, most significant bit first.
    pub fn to_string(&self) -> (s: String)
        ensures
            s@ == render_bits(self@),
    {
        let mut s = String::new();
        let mut i: usize = N;
        proof {
            assert(s@ =~= render_bits(self@).take(0));
        }
        while i > 0
            invariant
                i <= N,
                s@ == render_bits(self@).take((N - i) as int),
            decreases i,
        {
            i -= 1;
            let ghost k = (N - 1 - i) as int;
            if self.bit_array[i] {
                s.append("1");
            } else {
                s.append("0");
            }
            proof {
                reveal_strlit("1");
                reveal_strlit("0");
                assert(render_bits(self@)[k] == (if self@[N - 1 - k] {
                    '1'
                } else {
                    '0'
                }));
                assert(s@ =~= render_bits(self@).take(k + 1));
            }
        }
        proof {
            assert(render_bits(self@).take(N as int) =~= render_bits(self@));
        }
        s
    }

    /// Reads an exact-width binary string, most significant bit first,
    /// scanning from the rightmost character; a character other than '0' or
    /// '1' is reported with the rightmost offender.
    fn from_binary_digits(s: &str) -> (r: Result<Bits<N>, BitsParseError>)
        requires
            s@.len() == N,
        ensures
            all_binary_digits(s@) ==> (r matches Ok(b) && b@ == parse_bits(s@)),
            !all_binary_digits(s@) ==> r == Err::<Bits<N>, BitsParseError>(
                BitsParseError::Character { character: s@[last_non_binary(s@)] },
            ),
    {
        let mut out = [false; N];
        let mut i: usize = 0;
        while i < N
            invariant
                i <= N,
                s@.len() == N,
                forall|j: int| N - i <= j < N ==> s@[j] == '0' || s@[j] == '1',
                forall|j: int| 0 <= j < i ==> out@[j] == (s@[N - 1 - j] == '1'),
                forall|j: int| i <= j < N ==> !out@[j],
            decreases N - i,
        {
            let c = s.get_char(N - 1 - i);
            if c == '1' {
                out[i] = true;
            } else if c != '0' {
                proof {
                    let bad = (N - 1 - i) as int;
                    assert(!(s@[bad] == '0' || s@[bad] == '1'));
                    let li = last_non_binary(s@);
                    assert(0 <= li < s@.len() && !(s@[li] == '0' || s@[li] == '1') && (forall|
                        j: int,
                    |
                        li < j < s@.len() ==> s@[j] == '0' || s@[j] == '1')) by {
                        assert(0 <= bad < s@.len() && !(s@[bad] == '0' || s@[bad] == '1') && (
                        forall|j: int| bad < j < s@.len() ==> s@[j] == '0' || s@[j] == '1'));
                    }
                    assert(li == bad);
                }
                return Err(BitsParseError::Character { character: c });
            }
            i += 1;
        }
        let r = Bits { bit_array: out };
        proof {
            assert(r@ =~= parse_bits(s@));
        }
        Ok(r)
    }

    /// Reads a bit vector from text: an exact-width binary string (optionally
    /// prefixed `0b`), a shorter decimal string, or a `-`-prefixed decimal
    /// read as a two's-complement value.
    pub fn from_str(s: &str) -> (r: Result<Bits<N>, VmError>)
        requires
            1 <= N <= 63,
            pow2(N as nat) <= usize::MAX as nat + 1,
        ensures
            spec_from_str::<N>(s@, r),
    {
        let n = s.unicode_len();
        if n > 0 && s.get_char(0) == '-' {
            let digits = s.substring_char(1, n);
            proof {
                assert(digits@ =~= s@.skip(1));
            }
            let parsed = parse_dec_u64(digits);
            proof {
                vstd::arithmetic::power2::lemma2_to64_rest();
                vstd::arithmetic::power2::lemma_pow2_pos((N - 1) as nat);
                if (N as nat) < 63 {
                    vstd::arithmetic::power2::lemma_pow2_strictly_increases(N as nat, 63);
                }
            }
            match parsed {
                Some(v) => {
                    if v > i64::MAX as u64 {
                        return Err(
                            VmError::Bits(BitsParseError::Number { num: s.to_owned() }),
                        );
                    }
                    match Self::try_from_signed_number(-(v as i64)) {
                        Ok(b) => Ok(b),
                        Err(e) => Err(VmError::Bits(e)),
                    }
                },
                None => Err(VmError::Bits(BitsParseError::Number { num: s.to_owned() })),
            }
        } else {
            let had_prefix = n >= 2 && s.get_char(0) == '0' && s.get_char(1) == 'b';
            let stripped = Self::strip_binary_prefix(s);
            let m = stripped.unicode_len();
            if m > N {
                Err(
                    VmError::Bits(
                        BitsParseError::Length {
                            expected: N,
                            found: m,
                            string: stripped.to_owned(),
                        },
                    ),
                )
            } else if had_prefix {
                let mut padded = String::new();
                let mut k: usize = 0;
                proof {
                    reveal_strlit("0");
                }
                while k < N - m
                    invariant
                        k <= N - m,
                        padded@ =~= Seq::new(k as nat, |i: int| '0'),
                        ("0")@ =~= seq!['0'],
                    decreases N - m - k,
                {
                    padded.append("0");
                    proof {
                        assert(padded@ =~= Seq::new((k + 1) as nat, |i: int| '0'));
                    }
                    k += 1;
                }
                padded.append(stripped);
                proof {
                    assert(padded@ =~= zero_pad(stripped@, N as int));
                }
                match Self::from_binary_digits(padded.as_str()) {
                    Ok(b) => Ok(b),
                    Err(e) => Err(VmError::Bits(e)),
                }
            } else if m < N {
                match parse_dec_u64(stripped) {
                    Some(v) => match Self::try_from_unsigned_number(v) {
                        Ok(b) => Ok(b),
                        Err(e) => Err(VmError::Bits(e)),
                    },
                    None => Err(
                        VmError::Bits(BitsParseError::Number { num: stripped.to_owned() }),
                    ),
                }
            } else {
                match Self::from_binary_digits(stripped) {
                    Ok(b) => Ok(b),
                    Err(e) => Err(VmError::Bits(e)),
                }
            }
        }
    }

    /// The string with a leading `0b`, if any, removed.
    pub open spec fn spec_strip_binary_prefix(t: Seq<char>) -> Seq<char> {
        if t.len() >= 2 && t[0] == '0' && t[1] == 'b' {
            t.skip(2)
        } else {
            t
        }
    }

    /// What `from_str` returns on a `-`-prefixed string: the negated decimal
    /// value read as two's complement, or the error that parsing reports.
    pub open spec fn spec_from_str_signed(t: Seq<char>, r: Result<Bits<N>, VmError>) -> bool {
        let d = t.skip(1);
        if d.len() > 0 && all_dec_digits(d) && dec_value(d) <= i64::MAX as nat {
            let v = -(dec_value(d) as int);
            if -(pow2((N - 1) as nat) as int) <= v {
                r matches Ok(b) && b.value() as int == (if v == 0 {
                    0
                } else {
                    v + pow2(N as nat)
                })
            } else {
                r == Err::<Bits<N>, VmError>(
                    VmError::Bits(
                        BitsParseError::OutOfBounds {
                            value: v as usize,
                            max: (pow2((N - 1) as nat) - 1) as usize,
                        },
                    ),
                )
            }
        } else {
            (r matches Err(e) && e matches VmError::Bits(BitsParseError::Number { num }) && num@
                == t)
        }
    }

    /// What `from_str` returns on a decimal string shorter than the width:
    /// the denoted value, or the error that parsing or the range check
    /// reports.
    pub open spec fn spec_from_str_decimal(u: Seq<char>, r: Result<Bits<N>, VmError>) -> bool {
        if u.len() > 0 && all_dec_digits(u) && dec_value(u) <= u64::MAX as nat {
            if dec_value(u) < pow2(N as nat) {
                r matches Ok(b) && b.value() == dec_value(u)
            } else {
                r == Err::<Bits<N>, VmError>(
                    VmError::Bits(
                        BitsParseError::OutOfBounds {
                            value: dec_value(u) as usize,
                            max: (pow2(N as nat) - 1) as usize,
                        },
                    ),
                )
            }
        } else {
            (r matches Err(e) && e matches VmError::Bits(BitsParseError::Number { num }) && num@
                == u)
        }
    }

    /// Removes a leading `0b`, if any.
    fn strip_binary_prefix(s: &str) -> (r: &str)
        ensures
            r@ == Self::spec_strip_binary_prefix(s@),
    {
        let n = s.unicode_len();
        if n >= 2 && s.get_char(0) == '0' && s.get_char(1) == 'b' {
            let r = s.substring_char(2, n);
            proof {
                assert(r@ =~= s@.skip(2));
            }
            r
        } else {
            s
        }
    }
}

/// Relies on `String::push`: appends one character to the string.
#[verifier::external_body]
pub fn push_char(s: &mut String, c: char)
    ensures
        final(s)@ == old(s)@.push(c),
{
    s.push(c);
}

/// Display and parse invert each other: reading back a bit vector's rendered
/// binary string gives the same bit vector, at every width.
pub proof fn lemma_display_parse_roundtrip<const N: usize>(
    b: Bits<N>,
    r: Result<Bits<N>, VmError>,
)
    requires
        N >= 1,
        spec_from_str::<N>(render_bits(b@), r),
    ensures
        r == Ok::<Bits<N>, VmError>(b),
{
    let t = render_bits(b@);
    crate::bitseq::lemma_render_parse_roundtrip(b@);
    assert(t[0] == '0' || t[0] == '1');
    assert(t[0] != '-');
    if t.len() >= 2 {
        assert(t[1] == '0' || t[1] == '1');
        assert(t[1] != 'b');
    }
    assert(Bits::<N>::spec_strip_binary_prefix(t) == t);
    let rb = r->Ok_0;
    assert(rb@ == parse_bits(t));
    crate::bits::lemma_bits_ext(rb, b);
}

} // verus!
