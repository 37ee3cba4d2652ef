//! Arithmetic-logic unit: one combinational engine computes add, subtract,
//! the bitwise family and a right shift over two fixed-width operands. The
//! bitwise operations are derived from the shared adder skeleton by
//! selectively inverting operands, switching the per-bit combine step from
//! exclusive-or to or, and flooding the carry chain; the zero and carry flags
//! persist until the next flag-setting computation.

use vstd::prelude::*;
use vstd::arithmetic::power2::lemma2_to64;
use vstd::arithmetic::power2::lemma_pow2_pos;
use vstd::arithmetic::power2::pow2;
use crate::bits::Bits;
use crate::bitseq::bit_as_nat;
use crate::bitseq::bits_not;
use crate::bitseq::bits_value;
use crate::bitseq::carry_chain;
use crate::bitseq::lemma_bits_value_bound;
use crate::bitseq::lemma_bits_value_nonzero;
use crate::bitseq::lemma_bits_value_not;
use crate::bitseq::lemma_bits_value_push_false;
use crate::bitseq::lemma_bits_value_zero;
use crate::bitseq::lemma_ripple_adder;
use crate::bitseq::sum_bits;

verus! {

/// Per-position decision of the carry chain: the position either generates a
/// carry for everything above it or cancels it.
#[derive(Debug, Clone, Copy, PartialEq, Eq, Structural)]
pub enum Signal {
    Cancel,
    Generate,
}

/// The carry signal denoting a carry bit.
pub open spec fn sig_of(b: bool) -> Signal {
    if b {
        Signal::Generate
    } else {
        Signal::Cancel
    }
}

/// The named operations the ALU performs.
#[derive(Debug, Clone, Copy, PartialEq, Eq, Structural, Default)]
pub enum AluSettings {
    #[default]
    Add,
    Sub,
    Xor,
    Xnor,
    Or,
    Nor,
    And,
    Nand,
    Implies,
    Nimplies,
    Rshift,
}

/// How one operation wires the shared adder skeleton: which operands are
/// inverted, the initial carry, whether the carry chain is flooded with
/// `Generate`, whether the per-bit combine step is or instead of exclusive-or,
/// and whether the unit bypasses the adder for a right shift.
#[derive(Debug, Clone, Copy, PartialEq, Eq, Structural, Default)]
pub struct AluConfig {
    pub invert_a: bool,
    pub invert_b: bool,
    pub carry_in: bool,
    pub flood_carry: bool,
    pub xor_to_or: bool,
    pub is_rshift: bool,
}

/// The wiring for each named operation.
pub open spec fn spec_config(setting: AluSettings) -> AluConfig {
    match setting {
        AluSettings::Add => AluConfig {
            invert_a: false,
            invert_b: false,
            carry_in: false,
            flood_carry: false,
            xor_to_or: false,
            is_rshift: false,
        },
        AluSettings::Sub => AluConfig {
            invert_a: false,
            invert_b: true,
            carry_in: true,
            flood_carry: false,
            xor_to_or: false,
            is_rshift: false,
        },
        AluSettings::Xor => AluConfig {
            invert_a: false,
            invert_b: true,
            carry_in: false,
            flood_carry: true,
            xor_to_or: false,
            is_rshift: false,
        },
        AluSettings::Xnor => AluConfig {
            invert_a: false,
            invert_b: false,
            carry_in: false,
            flood_carry: true,
            xor_to_or: false,
            is_rshift: false,
        },
        AluSettings::Or => AluConfig {
            invert_a: false,
            invert_b: false,
            carry_in: false,
            flood_carry: false,
            xor_to_or: true,
            is_rshift: false,
        },
        AluSettings::Nor => AluConfig {
            invert_a: false,
            invert_b: false,
            carry_in: false,
            flood_carry: true,
            xor_to_or: true,
            is_rshift: false,
        },
        AluSettings::And => AluConfig {
            invert_a: true,
            invert_b: true,
            carry_in: false,
            flood_carry: true,
            xor_to_or: true,
            is_rshift: false,
        },
        AluSettings::Nand => AluConfig {
            invert_a: true,
            invert_b: true,
            carry_in: false,
            flood_carry: false,
            xor_to_or: true,
            is_rshift: false,
        },
        AluSettings::Implies => AluConfig {
            invert_a: true,
            invert_b: false,
            carry_in: false,
            flood_carry: false,
            xor_to_or: true,
            is_rshift: false,
        },
        AluSettings::Nimplies => AluConfig {
            invert_a: true,
            invert_b: false,
            carry_in: false,
            flood_carry: true,
            xor_to_or: true,
            is_rshift: false,
        },
        AluSettings::Rshift => AluConfig {
            invert_a: false,
            invert_b: false,
            carry_in: false,
            flood_carry: false,
            xor_to_or: false,
            is_rshift: true,
        },
    }
}

/// The ALU setting selected by opcode `v`; meaningful for the six opcodes
/// that compute through the ALU.
pub open spec fn spec_setting_of_opcode(v: nat) -> AluSettings {
    if v == 2 {
        AluSettings::Add
    } else if v == 3 {
        AluSettings::Sub
    } else if v == 4 {
        AluSettings::Nor
    } else if v == 5 {
        AluSettings::And
    } else if v == 6 {
        AluSettings::Xor
    } else {
        AluSettings::Rshift
    }
}

impl AluSettings {
    /// The wiring of `setting`.
    pub fn config(&self, setting: AluSettings) -> (c: AluConfig)
        ensures
            c == spec_config(setting),
    {
        match setting {
            AluSettings::Add => AluConfig {
                invert_a: false,
                invert_b: false,
                carry_in: false,
                flood_carry: false,
                xor_to_or: false,
                is_rshift: false,
            },
            AluSettings::Sub => AluConfig {
                invert_a: false,
                invert_b: true,
                carry_in: true,
                flood_carry: false,
                xor_to_or: false,
                is_rshift: false,
            },
            AluSettings::Xor => AluConfig {
                invert_a: false,
                invert_b: true,
                carry_in: false,
                flood_carry: true,
                xor_to_or: false,
                is_rshift: false,
            },
            AluSettings::Xnor => AluConfig {
                invert_a: false,
                invert_b: false,
                carry_in: false,
                flood_carry: true,
                xor_to_or: false,
                is_rshift: false,
            },
            AluSettings::Or => AluConfig {
                invert_a: false,
                invert_b: false,
                carry_in: false,
                flood_carry: false,
                xor_to_or: true,
                is_rshift: false,
            },
            AluSettings::Nor => AluConfig {
                invert_a: false,
                invert_b: false,
                carry_in: false,
                flood_carry: true,
                xor_to_or: true,
                is_rshift: false,
            },
            AluSettings::And => AluConfig {
                invert_a: true,
                invert_b: true,
                carry_in: false,
                flood_carry: true,
                xor_to_or: true,
                is_rshift: false,
            },
            AluSettings::Nand => AluConfig {
                invert_a: true,
                invert_b: true,
                carry_in: false,
                flood_carry: false,
                xor_to_or: true,
                is_rshift: false,
            },
            AluSettings::Implies => AluConfig {
                invert_a: true,
                invert_b: false,
                carry_in: false,
                flood_carry: false,
                xor_to_or: true,
                is_rshift: false,
            },
            AluSettings::Nimplies => AluConfig {
                invert_a: true,
                invert_b: false,
                carry_in: false,
                flood_carry: true,
                xor_to_or: true,
                is_rshift: false,
            },
            AluSettings::Rshift => AluConfig {
                invert_a: false,
                invert_b: false,
                carry_in: false,
                flood_carry: false,
                xor_to_or: false,
                is_rshift: true,
            },
        }
    }

    /// The setting selected by an arithmetic or logic opcode.
    pub fn from_bits(bits: Bits<4>) -> (s: AluSettings)
        requires
            2 <= bits.value() <= 7,
        ensures
            s == spec_setting_of_opcode(bits.value()),
    {
        proof {
            lemma2_to64();
        }
        let v = bits.to_usize();
        if v == 2 {
            AluSettings::Add
        } else if v == 3 {
            AluSettings::Sub
        } else if v == 4 {
            AluSettings::Nor
        } else if v == 5 {
            AluSettings::And
        } else if v == 6 {
            AluSettings::Xor
        } else {
            AluSettings::Rshift
        }
    }
}

/// The two condition flags a computation can set: whether the result was
/// zero, and the carry out of the top bit.
#[derive(Debug, Clone, Copy, PartialEq, Eq, Structural, Default)]
pub struct AluFlags {
    pub zero: bool,
    pub carry: bool,
}

impl AluFlags {
    pub fn set_zero(&mut self, value: bool)
        ensures
            final(self).zero == value,
            final(self).carry == old(self).carry,
    {
        self.zero = value;
    }

    pub fn set_carry(&mut self, value: bool)
        ensures
            final(self).carry == value,
            final(self).zero == old(self).zero,
    {
        self.carry = value;
    }

    /// Whether the branch condition numbered `c` holds of these flags:
    /// 0 is zero, 1 not zero, 2 carry, 3 not carry.
    pub open spec fn spec_cond_true(&self, c: nat) -> bool {
        if c == 0 {
            self.zero
        } else if c == 1 {
            !self.zero
        } else if c == 2 {
            self.carry
        } else {
            !self.carry
        }
    }

    /// Evaluates the 2-bit branch condition against these flags.
    pub fn cond_true(&self, condition: Bits<2>) -> (r: bool)
        ensures
            r == self.spec_cond_true(condition.value()),
    {
        proof {
            lemma2_to64();
            lemma_bits_value_bound(condition@);
        }
        let v = condition.to_usize();
        if v == 0 {
            self.zero
        } else if v == 1 {
            !self.zero
        } else if v == 2 {
            self.carry
        } else {
            !self.carry
        }
    }
}

/// The result the ALU computes for one setting over two equal-width operand
/// bit sequences.
pub open spec fn spec_alu_result(setting: AluSettings, a: Seq<bool>, b: Seq<bool>) -> Seq<bool> {
    match setting {
        AluSettings::Add => sum_bits(a, b, false),
        AluSettings::Sub => sum_bits(a, bits_not(b), true),
        AluSettings::Xor => Seq::new(a.len(), |i: int| a[i] != b[i]),
        AluSettings::Xnor => Seq::new(a.len(), |i: int| a[i] == b[i]),
        AluSettings::Or => Seq::new(a.len(), |i: int| a[i] || b[i]),
        AluSettings::Nor => Seq::new(a.len(), |i: int| !(a[i] || b[i])),
        AluSettings::And => Seq::new(a.len(), |i: int| a[i] && b[i]),
        AluSettings::Nand => Seq::new(a.len(), |i: int| !(a[i] && b[i])),
        AluSettings::Implies => Seq::new(a.len(), |i: int| !a[i] || b[i]),
        AluSettings::Nimplies => Seq::new(a.len(), |i: int| a[i] && !b[i]),
        AluSettings::Rshift => Seq::new(a.len(), |i: int| i + 1 < a.len() && a[i + 1]),
    }
}

/// The carry out of the top bit for one setting: the adder's carry for Add
/// and Sub, and the flood value for the derived bitwise operations.
pub open spec fn spec_alu_carry_out(setting: AluSettings, a: Seq<bool>, b: Seq<bool>) -> bool {
    match setting {
        AluSettings::Add => carry_chain(a, b, false, a.len() as int),
        AluSettings::Sub => carry_chain(a, bits_not(b), true, a.len() as int),
        AluSettings::Xor => true,
        AluSettings::Xnor => true,
        AluSettings::Nor => true,
        AluSettings::And => true,
        AluSettings::Nimplies => true,
        AluSettings::Or => false,
        AluSettings::Nand => false,
        AluSettings::Implies => false,
        AluSettings::Rshift => false,
    }
}

/// The flags after a computation: unchanged unless flag capture is on and the
/// operation goes through the adder skeleton (a right shift never touches
/// them).
pub open spec fn spec_alu_flags(
    setting: AluSettings,
    set_flags: bool,
    old_flags: AluFlags,
    a: Seq<bool>,
    b: Seq<bool>,
) -> AluFlags {
    if set_flags && !(setting matches AluSettings::Rshift) {
        AluFlags {
            zero: bits_value(spec_alu_result(setting, a, b)) == 0,
            carry: spec_alu_carry_out(setting, a, b),
        }
    } else {
        old_flags
    }
}

/// The arithmetic-logic unit: the active operation with its wiring, the
/// condition flags of the last flag-setting computation, and whether the
/// current instruction captures flags.
#[derive(Debug, Clone, Copy, PartialEq, Eq, Structural)]
pub struct Alu {
    pub config: AluConfig,
    pub setting: AluSettings,
    pub flags: AluFlags,
    pub set_flags: bool,
}

impl Alu {
    /// The wiring always matches the active setting.
    pub open spec fn wf(&self) -> bool {
        self.config == spec_config(self.setting)
    }

    /// A fresh unit set to `setting`, with clear flags and flag capture off.
    pub fn new(setting: AluSettings) -> (r: Alu)
        ensures
            r.wf(),
            r.setting == setting,
            r.flags == (AluFlags { zero: false, carry: false }),
            r.set_flags == false,
    {
        let config = setting.config(setting);
        Alu { config, setting, flags: AluFlags { zero: false, carry: false }, set_flags: false }
    }

    /// Switches the unit to another operation, rebuilding the wiring.
    pub fn set_setting(&mut self, setting: AluSettings)
        ensures
            final(self).wf(),
            final(self).setting == setting,
            final(self).flags == old(self).flags,
            final(self).set_flags == old(self).set_flags,
    {
        self.setting = setting;
        self.config = setting.config(setting);
    }

    /// Turns flag capture on or off for the next computation.
    pub fn enable_flags(&mut self, enabled: bool)
        ensures
            final(self).set_flags == enabled,
            final(self).setting == old(self).setting,
            final(self).config == old(self).config,
            final(self).flags == old(self).flags,
            old(self).wf() ==> final(self).wf(),
    {
        self.set_flags = enabled;
    }

    /// Computes the active operation over `a` and `b` and, when flag capture
    /// is on and the operation goes through the adder, latches the zero and
    /// carry flags. Addition and subtraction wrap modulo `pow2(N)`; the carry
    /// flag records the carry out of the top bit, which for subtraction is
    /// set exactly when no borrow occurred.
    pub fn compute<const N: usize>(&mut self, a: Bits<N>, b: Bits<N>) -> (r: Bits<N>)
        requires
            old(self).wf(),
            1 <= N < usize::MAX,
        ensures
            final(self).wf(),
            final(self).setting == old(self).setting,
            final(self).set_flags == old(self).set_flags,
            r@ == spec_alu_result(old(self).setting, a@, b@),
            final(self).flags == spec_alu_flags(
                old(self).setting,
                old(self).set_flags,
                old(self).flags,
                a@,
                b@
            ),
            old(self).setting == AluSettings::Add ==> r.value() == (a.value() + b.value()) % pow2(
                N as nat,
            ),
            old(self).setting == AluSettings::Sub ==> r.value() as int == (a.value() as int
                - b.value() as int) % (pow2(N as nat) as int),
            old(self).setting == AluSettings::Rshift ==> r.value() == a.value() / 2,
            old(self).set_flags && old(self).setting == AluSettings::Add
                ==> (final(self).flags.carry == (a.value() + b.value() >= pow2(N as nat))),
            old(self).set_flags && old(self).setting == AluSettings::Sub
                ==> (final(self).flags.carry == (a.value() >= b.value())),
            old(self).set_flags && !(old(self).setting matches AluSettings::Rshift)
                ==> (final(self).flags.zero == (r.value() == 0)),
    {
        let ghost setting = self.setting;
        let config = self.config;
        if config.is_rshift {
            let mut res = [false; N];
            let mut i: usize = 0;
            while i < N - 1
                invariant
                    i <= N - 1,
                    N >= 1,
                    forall|j: int| 0 <= j < i ==> res@[j] == a@[j + 1],
                    forall|j: int| i <= j < N ==> !res@[j],
                decreases N - 1 - i,
            {
                res[i] = a.bit_array[i + 1];
                i += 1;
            }
            let r = Bits { bit_array: res };
            proof {
                assert(r@ =~= spec_alu_result(setting, a@, b@));
                assert(r@ =~= a@.skip(1).push(false));
                lemma_bits_value_push_false(a@.skip(1));
                vstd::arithmetic::div_mod::lemma_fundamental_div_mod_converse(
                    a.value() as int,
                    2,
                    bits_value(a@.skip(1)) as int,
                    bit_as_nat(a@[0]) as int,
                );
            }
            return r;
        }
        let c0 = config.carry_in;
        let ghost aa = if config.invert_a {
            bits_not(a@)
        } else {
            a@
        };
        let ghost bb = if config.invert_b {
            bits_not(b@)
        } else {
            b@
        };
        let init = if c0 {
            Signal::Generate
        } else {
            Signal::Cancel
        };
        let mut carry: Vec<Signal> = Vec::new();
        let mut k: usize = 0;
        while k < N + 1
            invariant
                N < usize::MAX,
                k <= N + 1,
                carry@.len() == k,
                c0 == config.carry_in,
                init == sig_of(c0),
                forall|j: int| 0 <= j < k ==> carry@[j] == sig_of(c0),
            decreases N + 1 - k,
        {
            carry.push(init);
            k += 1;
        }
        let mut xor_or = [false; N];
        let mut i: usize = 0;
        while i < N
            invariant
                i <= N,
                carry@.len() == N + 1,
                aa == (if config.invert_a {
                    bits_not(a@)
                } else {
                    a@
                }),
                bb == (if config.invert_b {
                    bits_not(b@)
                } else {
                    b@
                }),
                c0 == config.carry_in,
                config.xor_to_or ==> forall|j: int| 0 <= j <= N ==> carry@[j] == sig_of(c0),
                !config.xor_to_or ==> forall|j: int|
                    0 <= j <= i ==> carry@[j] == sig_of(carry_chain(aa, bb, c0, j)),
                !config.xor_to_or ==> forall|j: int|
                    i <= j <= N ==> carry@[j] == sig_of(carry_chain(aa, bb, c0, i as int)),
                forall|j: int|
                    0 <= j < i ==> xor_or@[j] == (if config.xor_to_or {
                        aa[j] || bb[j]
                    } else {
                        aa[j] != bb[j]
                    }),
            decreases N - i,
        {
            let a_bit = if config.invert_a {
                !a.bit_array[i]
            } else {
                a.bit_array[i]
            };
            let b_bit = if config.invert_b {
                !b.bit_array[i]
            } else {
                b.bit_array[i]
            };
            proof {
                assert(aa[i as int] == a_bit);
                assert(bb[i as int] == b_bit);
                assert(carry_chain(aa, bb, c0, i + 1) == ((aa[i as int] && bb[i as int]) || ((aa[
                    i as int
                ] || bb[i as int]) && carry_chain(aa, bb, c0, i as int))));
            }
            if config.xor_to_or {
                xor_or[i] = a_bit || b_bit;
            } else {
                xor_or[i] = a_bit != b_bit;
                if a_bit && b_bit {
                    fill_signals(&mut carry, i + 1, Signal::Generate);
                } else if !a_bit && !b_bit {
                    fill_signals(&mut carry, i + 1, Signal::Cancel);
                }
            }
            i += 1;
        }
        if config.flood_carry {
            fill_signals(&mut carry, 0, Signal::Generate);
        }
        let ghost carry_at = |j: int|
            if config.flood_carry {
                Signal::Generate
            } else if config.xor_to_or {
                sig_of(c0)
            } else {
                sig_of(carry_chain(aa, bb, c0, j))
            };
        proof {
            assert forall|j: int| 0 <= j <= N implies carry@[j] == carry_at(j) by {}
        }
        let mut res = [false; N];
        let mut j: usize = 0;
        while j < N
            invariant
                j <= N,
                carry@.len() == N + 1,
                forall|k2: int| 0 <= k2 <= N ==> carry@[k2] == carry_at(k2),
                forall|k2: int|
                    0 <= k2 < N ==> xor_or@[k2] == (if config.xor_to_or {
                        aa[k2] || bb[k2]
                    } else {
                        aa[k2] != bb[k2]
                    }),
                aa == (if config.invert_a {
                    bits_not(a@)
                } else {
                    a@
                }),
                bb == (if config.invert_b {
                    bits_not(b@)
                } else {
                    b@
                }),
                c0 == config.carry_in,
                forall|k2: int|
                    0 <= k2 < j ==> res@[k2] == (xor_or@[k2] != (carry_at(k2)
                        == Signal::Generate)),
            decreases N - j,
        {
            let g = match carry[j] {
                Signal::Generate => true,
                Signal::Cancel => false,
            };
            res[j] = xor_or[j] != g;
            j += 1;
        }
        let r = Bits { bit_array: res };
        proof {
            assert forall|k2: int| 0 <= k2 < N implies res@[k2] == spec_alu_result(
                setting,
                a@,
                b@,
            )[k2] by {
                assert(res@[k2] == (xor_or@[k2] != (carry_at(k2) == Signal::Generate)));
                if config.invert_a {
                    assert(aa[k2] == !a@[k2]);
                } else {
                    assert(aa[k2] == a@[k2]);
                }
                if config.invert_b {
                    assert(bb[k2] == !b@[k2]);
                } else {
                    assert(bb[k2] == b@[k2]);
                }
                if !config.xor_to_or && !config.flood_carry {
                    assert(carry_at(k2) == sig_of(carry_chain(aa, bb, c0, k2)));
                }
            }
            assert(r@ =~= spec_alu_result(setting, a@, b@));
        }
        if self.set_flags {
            let mut is_zero = true;
            let mut z: usize = 0;
            while z < N
                invariant
                    z <= N,
                    r@ == res@,
                    is_zero == (forall|k2: int| 0 <= k2 < z ==> !res@[k2]),
                decreases N - z,
            {
                if res[z] {
                    is_zero = false;
                }
                z += 1;
            }
            proof {
                if is_zero {
                    lemma_bits_value_zero(r@);
                } else {
                    if r.value() == 0 {
                        lemma_bits_value_nonzero(r@);
                    }
                }
            }
            let top = match carry[N] {
                Signal::Generate => true,
                Signal::Cancel => false,
            };
            self.flags = AluFlags { zero: is_zero, carry: top };
        }
        proof {
            if setting == AluSettings::Add {
                lemma_numeric_add(a@, b@, r@);
            }
            if setting == AluSettings::Sub {
                lemma_numeric_sub(a@, b@, r@);
            }
        }
        r
    }
}

/// Sets every entry of `v` from position `from` on to `s`.
fn fill_signals(v: &mut Vec<Signal>, from: usize, s: Signal)
    requires
        from <= old(v)@.len(),
    ensures
        final(v)@.len() == old(v)@.len(),
        forall|k: int| 0 <= k < from ==> final(v)@[k] == old(v)@[k],
        forall|k: int| from <= k < final(v)@.len() ==> final(v)@[k] == s,
{
    let mut k = from;
    while k < v.len()
        invariant
            from <= k <= v@.len(),
            v@.len() == old(v)@.len(),
            forall|j: int| 0 <= j < from ==> v@[j] == old(v)@[j],
            forall|j: int| from <= j < k ==> v@[j] == s,
            forall|j: int| k <= j < v@.len() ==> v@[j] == old(v)@[j],
        decreases v@.len() - k,
    {
        v[k] = s;
        k += 1;
    }
}

/// Numeric reading of the adder's bit-level result for addition: the sum
/// wraps modulo `pow2(N)`.
proof fn lemma_numeric_add(a: Seq<bool>, b: Seq<bool>, r: Seq<bool>)
    requires
        a.len() == b.len(),
        r == sum_bits(a, b, false),
    ensures
        bits_value(r) == (bits_value(a) + bits_value(b)) % pow2(a.len()),
        carry_chain(a, b, false, a.len() as int) == (bits_value(a) + bits_value(b) >= pow2(
            a.len(),
        )),
{
    let n = a.len() as int;
    lemma_ripple_adder(a, b, false, n);
    assert(a.take(n) =~= a);
    assert(b.take(n) =~= b);
    assert(r.take(n) =~= r);
    lemma_bits_value_bound(r);
    lemma_pow2_pos(a.len());
    let p = pow2(a.len()) as int;
    let q = bit_as_nat(carry_chain(a, b, false, n)) as int;
    assert(p * q == q * p) by (nonlinear_arith);
    vstd::arithmetic::div_mod::lemma_fundamental_div_mod_converse(
        bits_value(a) as int + bits_value(b) as int,
        p,
        q,
        bits_value(r) as int,
    );
    if carry_chain(a, b, false, n) {
        assert(p * q == p) by (nonlinear_arith)
            requires
                q == 1,
        ;
    } else {
        assert(p * q == 0) by (nonlinear_arith)
            requires
                q == 0,
        ;
    }
}

/// Numeric reading of the adder's bit-level result for subtraction: the
/// difference wraps modulo `pow2(N)` and the carry out means no borrow.
proof fn lemma_numeric_sub(a: Seq<bool>, b: Seq<bool>, r: Seq<bool>)
    requires
        a.len() == b.len(),
        r == sum_bits(a, bits_not(b), true),
    ensures
        bits_value(r) as int == (bits_value(a) as int - bits_value(b) as int) % (pow2(
            a.len(),
        ) as int),
        carry_chain(a, bits_not(b), true, a.len() as int) == (bits_value(a) >= bits_value(b)),
{
    let n = a.len() as int;
    let nb = bits_not(b);
    lemma_ripple_adder(a, nb, true, n);
    assert(a.take(n) =~= a);
    assert(nb.take(n) =~= nb);
    assert(r.take(n) =~= r);
    lemma_bits_value_not(b);
    lemma_bits_value_bound(r);
    lemma_bits_value_bound(b);
    lemma_pow2_pos(a.len());
    let p = pow2(a.len()) as int;
    let q = bit_as_nat(carry_chain(a, nb, true, n)) as int;
    if carry_chain(a, nb, true, n) {
        assert(p * q == p) by (nonlinear_arith)
            requires
                q == 1,
        ;
        assert(0 * p == 0) by (nonlinear_arith);
        vstd::arithmetic::div_mod::lemma_fundamental_div_mod_converse(
            bits_value(a) as int - bits_value(b) as int,
            p,
            0,
            bits_value(r) as int,
        );
    } else {
        assert(p * q == 0) by (nonlinear_arith)
            requires
                q == 0,
        ;
        assert((-1) * p == -p) by (nonlinear_arith);
        vstd::arithmetic::div_mod::lemma_fundamental_div_mod_converse(
            bits_value(a) as int - bits_value(b) as int,
            p,
            -1,
            bits_value(r) as int,
        );
    }
}

/// Exclusive-or of a value with itself clears every bit: the ALU's Xor of
/// equal operands is zero.
pub proof fn lemma_alu_xor_self(a: Seq<bool>)
    ensures
        bits_value(spec_alu_result(AluSettings::Xor, a, a)) == 0,
{
    lemma_bits_value_zero(spec_alu_result(AluSettings::Xor, a, a));
}

/// Conjunction with zero is zero: the ALU's And of any value with an all-zero
/// operand is zero.
pub proof fn lemma_alu_and_zero(a: Seq<bool>, b: Seq<bool>)
    requires
        a.len() == b.len(),
        bits_value(b) == 0,
    ensures
        bits_value(spec_alu_result(AluSettings::And, a, b)) == 0,
{
    lemma_bits_value_nonzero(b);
    lemma_bits_value_zero(spec_alu_result(AluSettings::And, a, b));
}

/// Disjunction with all ones gives all ones: the ALU's Or of any value with
/// an all-ones operand is the all-ones value `pow2(N) - 1`.
pub proof fn lemma_alu_or_ones(a: Seq<bool>, b: Seq<bool>)
    requires
        a.len() == b.len(),
        forall|i: int| 0 <= i < b.len() ==> b[i],
    ensures
        bits_value(spec_alu_result(AluSettings::Or, a, b)) == pow2(b.len()) - 1,
{
    assert(spec_alu_result(AluSettings::Or, a, b) =~= b);
    let z = Seq::new(b.len(), |i: int| false);
    lemma_bits_value_zero(z);
    lemma_bits_value_not(z);
    assert(bits_not(z) =~= b);
}

/// A right shift halves the value and clears the top bit.
pub proof fn lemma_alu_rshift(a: Seq<bool>, b: Seq<bool>)
    requires
        a.len() >= 1,
    ensures
        bits_value(spec_alu_result(AluSettings::Rshift, a, b)) == bits_value(a) / 2,
        !spec_alu_result(AluSettings::Rshift, a, b)[a.len() - 1],
{
    let r = spec_alu_result(AluSettings::Rshift, a, b);
    assert(r =~= a.skip(1).push(false));
    lemma_bits_value_push_false(a.skip(1));
    vstd::arithmetic::div_mod::lemma_fundamental_div_mod_converse(
        bits_value(a) as int,
        2,
        bits_value(a.skip(1)) as int,
        bit_as_nat(a[0]) as int,
    );
}

} // verus!
