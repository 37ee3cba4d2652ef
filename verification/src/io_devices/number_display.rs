//! Number display: port 250 shows a byte, port 251 clears the display, ports
//! 252 and 253 select signed or unsigned reading of the shown byte.

use vstd::prelude::*;
use vstd::string::StringExecFns;
use crate::bits::Bits;
use crate::bits::text::dec_digits;
use crate::bits::text::u64_to_dec_string;

verus! {

/// Whether the shown byte reads as a two's-complement or an unsigned number.
#[derive(Debug, Clone, Copy, PartialEq, Eq, Structural, Default)]
pub enum DisplayState {
    SignedMode,
    #[default]
    UnsignedMode,
}

/// The number display: the shown byte, the reading mode, and whether the
/// display is on.
#[derive(Debug, Clone, Copy, PartialEq, Eq)]
pub struct NumberDisplay {
    pub display: Bits<8>,
    pub state: DisplayState,
    pub active: bool,
}

impl NumberDisplay {
    /// A fresh display: zero, unsigned, on.
    pub open spec fn spec_new() -> NumberDisplay {
        NumberDisplay {
            display: Bits::<8>::of_value(0),
            state: DisplayState::UnsignedMode,
            active: true,
        }
    }

    /// A fresh display showing zero in unsigned mode.
    pub fn new() -> (r: NumberDisplay)
        ensures
            r == NumberDisplay::spec_new(),
    {
        let zero = Bits::<8>::zero();
        proof {
            Bits::<8>::lemma_of_value(zero);
        }
        NumberDisplay { display: zero, state: DisplayState::UnsignedMode, active: true }
    }

    /// The text the display shows: "0" while off, else the shown byte in the
    /// selected mode, a two's-complement byte rendering with a leading minus
    /// sign when negative.
    pub open spec fn spec_display_val(&self) -> Seq<char> {
        if !self.active {
            seq!['0']
        } else if self.state == DisplayState::UnsignedMode {
            dec_digits(self.display.value())
        } else {
            if self.display.value() < 128 {
                dec_digits(self.display.value())
            } else {
                seq!['-'] + dec_digits((256 - self.display.value()) as nat)
            }
        }
    }

    /// Renders the display's text.
    pub fn get_display_val(&self) -> (s: String)
        ensures
            s@ == self.spec_display_val(),
    {
        proof {
            vstd::arithmetic::power2::lemma2_to64();
            crate::bitseq::lemma_bits_value_bound(self.display@);
            crate::bitseq::lemma_bits_value_split(self.display@, 7);
            assert(self.display@.skip(7) =~= seq![self.display@[7]]);
            crate::bitseq::lemma_bits_value_single(self.display@[7]);
            crate::bitseq::lemma_bits_value_bound(self.display@.take(7));
            let p = vstd::arithmetic::power2::pow2(7);
            let b7 = crate::bitseq::bit_as_nat(self.display@[7]);
            if self.display@[7] {
                assert(p * b7 == p) by (nonlinear_arith)
                    requires
                        b7 == 1,
                ;
            } else {
                assert(p * b7 == 0) by (nonlinear_arith)
                    requires
                        b7 == 0,
                ;
            }
        }
        if !self.active {
            let s = u64_to_dec_string(0);
            proof {
                assert(s@ =~= self.spec_display_val());
            }
            return s;
        }
        match self.state {
            DisplayState::UnsignedMode => {
                let v = self.display.to_usize();
                let s = u64_to_dec_string(v as u64);
                proof {
                    assert(s@ =~= self.spec_display_val());
                }
                s
            },
            DisplayState::SignedMode => {
                let v = self.display.to_signed();
                if v >= 0 {
                    let s = u64_to_dec_string(v as u64);
                    proof {
                        assert(s@ =~= self.spec_display_val());
                    }
                    s
                } else {
                    proof {
                        reveal_strlit("-");
                    }
                    let mut s = String::from_str("-");
                    let mag = u64_to_dec_string((-v) as u64);
                    s.append(mag.as_str());
                    proof {
                        assert(s@ =~= self.spec_display_val());
                    }
                    s
                }
            },
        }
    }

    /// How a write to port `addr` of `value` relates the display after the
    /// call to the display before it.
    pub open spec fn write_rel(
        pre: NumberDisplay,
        post: NumberDisplay,
        addr: nat,
        value: Seq<bool>,
    ) -> bool {
        if addr == 250 {
            post.display@ == value && post.state == pre.state && post.active
        } else if addr == 251 {
            post == (NumberDisplay { active: false, ..pre })
        } else if addr == 252 {
            post == (NumberDisplay { state: DisplayState::SignedMode, ..pre })
        } else if addr == 253 {
            post == (NumberDisplay { state: DisplayState::UnsignedMode, ..pre })
        } else {
            post == pre
        }
    }

    /// Writes to the display's ports: show a byte, clear, or select the mode.
    pub fn on_write(&mut self, addr: Bits<8>, value: Bits<8>)
        ensures
            NumberDisplay::write_rel(*old(self), *final(self), addr.value(), value@),
    {
        proof {
            vstd::arithmetic::power2::lemma2_to64();
            crate::bitseq::lemma_bits_value_bound(addr@);
        }
        let a = addr.to_usize();
        if a == 250 {
            self.active = true;
            self.display = value;
        } else if a == 251 {
            self.active = false;
        } else if a == 252 {
            self.state = DisplayState::SignedMode;
        } else if a == 253 {
            self.state = DisplayState::UnsignedMode;
        }
    }

    /// The display ignores reads.
    pub fn on_read(&mut self, addr: Bits<8>) -> (r: Bits<8>)
        ensures
            *final(self) == *old(self),
            r.value() == 0,
    {
        Bits::<8>::zero()
    }
}

} // verus!
