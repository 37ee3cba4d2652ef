//! Pseudo-random device: an 8-bit linear-feedback shift register stepped once
//! per read of its port. Only the seed is random; every step from a given
//! state is deterministic.

use vstd::prelude::*;
use vstd::arithmetic::power2::lemma2_to64;
use crate::bits::Bits;

verus! {

/// One step of the shift register: the feedback bit is the exclusive-or of
/// bits 7, 5, 4 and 3, every bit moves up one place, and the feedback bit
/// enters at the bottom.
pub open spec fn lfsr_next(s: Seq<bool>) -> Seq<bool> {
    Seq::new(
        s.len(),
        |i: int|
            if i == 0 {
                (((s[7] != s[5]) != s[4]) != s[3])
            } else {
                s[i - 1]
            },
    )
}

/// The pseudo-random generator: the seed it started from and its current
/// state.
#[derive(Debug, Clone, PartialEq, Eq)]
pub struct RNG {
    pub seed: Bits<8>,
    pub state: Bits<8>,
}

impl RNG {
    /// A generator started at `seed`; the all-zero state is the shift
    /// register's fixed point, so a zero seed is refused.
    pub fn new(seed: Bits<8>) -> (r: RNG)
        requires
            seed.value() > 0,
        ensures
            r.seed == seed,
            r.state == seed,
    {
        RNG { seed, state: seed }
    }

    /// A generator seeded from the host's randomness; a zero draw is retried
    /// a bounded number of times and falls back to one, the smallest valid
    /// seed.
    pub fn new_random() -> (r: RNG)
        ensures
            r.state.value() > 0,
            r.seed == r.state,
    {
        let mut byte = random_byte();
        let mut tries: usize = 0;
        while byte == 0 && tries < 64
            invariant
                tries <= 64,
            decreases 64 - tries,
        {
            byte = random_byte();
            tries += 1;
        }
        if byte == 0 {
            byte = 1;
        }
        proof {
            lemma2_to64();
        }
        let seed = Bits::<8>::from_unsigned_truncated(byte as u64);
        proof {
            assert(seed.value() == byte);
        }
        RNG::new(seed)
    }

    /// Steps the shift register and returns the new state.
    pub fn generate_next(&mut self) -> (r: Bits<8>)
        ensures
            final(self).seed == old(self).seed,
            final(self).state@ == lfsr_next(old(self).state@),
            r == final(self).state,
    {
        let s = self.state;
        let bit = (((s.bit_array[7] != s.bit_array[5]) != s.bit_array[4]) != s.bit_array[3]);
        let next = Bits::<8> {
            bit_array: [
                bit,
                s.bit_array[0],
                s.bit_array[1],
                s.bit_array[2],
                s.bit_array[3],
                s.bit_array[4],
                s.bit_array[5],
                s.bit_array[6],
            ],
        };
        proof {
            assert(next@ =~= lfsr_next(old(self).state@));
        }
        self.state = next;
        next
    }

    /// How a read relates the generator and its result: the register steps
    /// and reports its new state.
    pub open spec fn read_rel(pre: RNG, post: RNG, r: Bits<8>) -> bool {
        &&& post.seed == pre.seed
        &&& post.state@ == lfsr_next(pre.state@)
        &&& r == post.state
    }

    /// Reads the port: one step of the register.
    pub fn on_read(&mut self, addr: Bits<8>) -> (r: Bits<8>)
        ensures
            RNG::read_rel(*old(self), *final(self), r),
    {
        self.generate_next()
    }

    /// The generator ignores writes.
    pub fn on_write(&mut self, addr: Bits<8>, value: Bits<8>)
        ensures
            *final(self) == *old(self),
    {
    }
}

/// Relies on `rand::random`: a uniformly drawn byte from the host's
/// generator; nothing is promised of the value.
#[verifier::external_body]
fn random_byte() -> (r: u8) {
    rand::random::<u8>()
}

} // verus!
