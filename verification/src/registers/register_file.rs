//! Dual-bank register file: two numerically identical banks of sixteen 8-bit
//! registers give two independent same-cycle reads. Register 0 is wired to
//! zero and never written. Reads are latched, not live: they refresh when the
//! read addresses are set, when a write lands on a latched address, and when
//! the file is re-enabled; while the file is disabled both outputs read zero.

use vstd::prelude::*;
use vstd::arithmetic::power2::lemma2_to64;
use crate::bits::Bits;
use crate::bitseq::lemma_bits_value_bound;
use crate::bitseq::lemma_bits_value_zero;

verus! {

/// One bank of sixteen 8-bit registers.
pub type RegisterBank = [Bits<8>; 16];

/// The register file's state: both banks, the enable line, the staged write,
/// and the two read ports' latched addresses and outputs.
#[derive(Debug, Clone, PartialEq, Eq)]
pub struct RegisterFile {
    pub register_banks: [RegisterBank; 2],
    pub enabled: bool,
    pub write_buffer: Option<(Bits<4>, Bits<8>)>,
    pub read_addresses: [Bits<4>; 2],
    pub read_outputs: [Bits<8>; 2],
}

impl RegisterFile {
    /// The file's invariant: the banks agree at every index, register 0 is
    /// zero, a staged write never aims at register 0, the latched outputs are
    /// zero while disabled and mirror the banks at the latched addresses
    /// while enabled.
    pub open spec fn wf(&self) -> bool {
        &&& forall|i: int|
            0 <= i < 16 ==> self.register_banks@[0]@[i] == self.register_banks@[1]@[i]
        &&& self.register_banks@[0]@[0].value() == 0
        &&& self.register_banks@[1]@[0].value() == 0
        &&& (self.write_buffer matches Some((idx, _)) ==> idx.value() != 0)
        &&& (!self.enabled ==> self.read_outputs@[0].value() == 0 && self.read_outputs@[1].value()
            == 0)
        &&& (self.enabled ==> forall|r: int|
            0 <= r < 2 ==> self.read_outputs@[r] == self.register_banks@[r]@[self.read_addresses@[r].value() as int])
    }

    /// A file whose banks both hold `rb`, enabled, with nothing staged and
    /// both ports latched at register 0.
    pub fn new(rb: RegisterBank) -> (r: RegisterFile)
        requires
            rb@[0].value() == 0,
        ensures
            r.wf(),
            r.enabled,
            r.write_buffer is None,
            forall|i: int| 0 <= i < 16 ==> r.register_banks@[0]@[i] == rb@[i],
            forall|i: int| 0 <= i < 16 ==> r.register_banks@[1]@[i] == rb@[i],
            r.read_addresses@[0].value() == 0,
            r.read_addresses@[1].value() == 0,
            r.read_outputs@[0].value() == 0,
            r.read_outputs@[1].value() == 0,
    {
        let zero4 = Bits::<4>::zero();
        let r = RegisterFile {
            register_banks: [rb, rb],
            enabled: true,
            write_buffer: None,
            read_addresses: [zero4, zero4],
            read_outputs: [rb[0], rb[0]],
        };
        r
    }

    /// Turns the file off or on. Disabling clears the staged write and zeroes
    /// both latched outputs; enabling re-latches both outputs from the banks
    /// at the previously set read addresses.
    pub fn enable(&mut self, enabled: bool)
        requires
            old(self).wf(),
        ensures
            final(self).wf(),
            final(self).enabled == enabled,
            final(self).register_banks == old(self).register_banks,
            final(self).read_addresses == old(self).read_addresses,
            !enabled ==> final(self).write_buffer is None && final(self).read_outputs@[0].value()
                == 0 && final(self).read_outputs@[1].value() == 0,
            enabled ==> final(self).write_buffer == old(self).write_buffer && (forall|r: int|
                0 <= r < 2 ==> final(self).read_outputs@[r] == final(self).register_banks@[r]@[final(self).read_addresses@[r].value() as int]),
    {
        if !enabled {
            self.enabled = false;
            let zero8 = Bits::<8>::zero();
            self.read_outputs = [zero8, zero8];
            self.write_buffer = None;
        } else {
            self.enabled = true;
            proof {
                lemma2_to64();
                lemma_bits_value_bound(self.read_addresses@[0]@);
                lemma_bits_value_bound(self.read_addresses@[1]@);
            }
            let a0 = self.read_addresses[0].to_usize();
            let a1 = self.read_addresses[1].to_usize();
            self.read_outputs = [self.register_banks[0][a0], self.register_banks[1][a1]];
        }
    }

    /// Latches both read ports: while enabled each port records its address
    /// and outputs the bank's value there; a disabled file ignores the call.
    pub fn set_read_addresses(&mut self, indexes: [Bits<4>; 2])
        requires
            old(self).wf(),
        ensures
            final(self).wf(),
            final(self).enabled == old(self).enabled,
            final(self).register_banks == old(self).register_banks,
            final(self).write_buffer == old(self).write_buffer,
            !old(self).enabled ==> *final(self) == *old(self),
            old(self).enabled ==> final(self).read_addresses == indexes && (forall|r: int|
                0 <= r < 2 ==> final(self).read_outputs@[r] == final(self).register_banks@[r]@[indexes@[r].value() as int]),
    {
        if self.enabled {
            proof {
                lemma2_to64();
                lemma_bits_value_bound(indexes@[0]@);
                lemma_bits_value_bound(indexes@[1]@);
            }
            let a0 = indexes[0].to_usize();
            let a1 = indexes[1].to_usize();
            self.read_addresses = indexes;
            self.read_outputs = [self.register_banks[0][a0], self.register_banks[1][a1]];
        }
    }

    /// Stages one write. A write to register 0 is discarded: register 0 is
    /// the hard-wired zero register.
    pub fn schedule_write(&mut self, write_info: (Bits<4>, Bits<8>))
        requires
            old(self).wf(),
        ensures
            final(self).wf(),
            final(self).enabled == old(self).enabled,
            final(self).register_banks == old(self).register_banks,
            final(self).read_addresses == old(self).read_addresses,
            final(self).read_outputs == old(self).read_outputs,
            write_info.0.value() == 0 ==> final(self).write_buffer == old(self).write_buffer,
            write_info.0.value() != 0 ==> final(self).write_buffer == Some(write_info),
    {
        proof {
            lemma2_to64();
            lemma_bits_value_bound(write_info.0@);
        }
        let (index, value) = write_info;
        if index.to_usize() != 0 {
            self.write_buffer = Some((index, value));
        }
    }

    /// Commits the staged write, if the file is enabled and one is staged: the
    /// value lands in both banks, and a port latched at the written index
    /// outputs the new value in the same tick. After any clock the two banks
    /// agree at every index and register 0 is still zero.
    pub fn clock(&mut self)
        requires
            old(self).wf(),
        ensures
            final(self).wf(),
            forall|i: int|
                0 <= i < 16 ==> final(self).register_banks@[0]@[i] == final(self).register_banks@[1]@[i],
            final(self).register_banks@[0]@[0].value() == 0,
            final(self).enabled == old(self).enabled,
            final(self).read_addresses == old(self).read_addresses,
            !(old(self).enabled && old(self).write_buffer is Some) ==> *final(self) == *old(self),
            old(self).enabled ==> (old(self).write_buffer matches Some((idx, v)) ==> {
                &&& final(self).write_buffer is None
                &&& forall|r: int, i: int|
                    0 <= r < 2 && 0 <= i < 16 ==> final(self).register_banks@[r]@[i] == (if i
                        == idx.value() {
                        v
                    } else {
                        old(self).register_banks@[r]@[i]
                    })
                &&& forall|r: int|
                    0 <= r < 2 ==> final(self).read_outputs@[r] == (if old(self).read_addresses@[r].value() == idx.value() {
                        v
                    } else {
                        old(self).read_outputs@[r]
                    })
            }),
    {
        if self.enabled {
            let buffered = self.write_buffer;
            match buffered {
                None => {},
                Some((index, value)) => {
                    self.write_buffer = None;
                    proof {
                        lemma2_to64();
                        lemma_bits_value_bound(index@);
                        lemma_bits_value_bound(self.read_addresses@[0]@);
                        lemma_bits_value_bound(self.read_addresses@[1]@);
                    }
                    let idx = index.to_usize();
                    let mut bank0 = self.register_banks[0];
                    bank0[idx] = value;
                    let mut bank1 = self.register_banks[1];
                    bank1[idx] = value;
                    self.register_banks = [bank0, bank1];
                    if index.eq(&self.read_addresses[0]) {
                        self.read_outputs = [value, self.read_outputs[1]];
                    }
                    if index.eq(&self.read_addresses[1]) {
                        self.read_outputs = [self.read_outputs[0], value];
                    }
                    proof {
                        if old(self).read_addresses@[0].value() == index.value() {
                            crate::bitseq::lemma_bits_value_injective(
                                old(self).read_addresses@[0]@,
                                index@,
                            );
                        }
                        if old(self).read_addresses@[1].value() == index.value() {
                            crate::bitseq::lemma_bits_value_injective(
                                old(self).read_addresses@[1]@,
                                index@,
                            );
                        }
                    }
                },
            }
        }
    }
}

impl Default for RegisterFile {
    /// A file of zeroed registers, enabled, with nothing staged.
    fn default() -> (r: RegisterFile)
        ensures
            r.wf(),
            r.enabled,
            r.write_buffer is None,
            forall|rb: int, i: int|
                0 <= rb < 2 && 0 <= i < 16 ==> r.register_banks@[rb]@[i].value() == 0,
            r.read_addresses@[0].value() == 0,
            r.read_addresses@[1].value() == 0,
            r.read_outputs@[0].value() == 0,
            r.read_outputs@[1].value() == 0,
    {
        let zero8 = Bits::<8>::zero();
        let bank: RegisterBank = [zero8;16];
        let r = RegisterFile::new(bank);
        proof {
            assert forall|rb: int, i: int|
                0 <= rb < 2 && 0 <= i < 16 implies r.register_banks@[rb]@[i].value() == 0 by {
                assert(bank@[i] == zero8);
                if rb == 0 {
                    assert(r.register_banks@[0]@[i] == bank@[i]);
                } else {
                    assert(r.register_banks@[1]@[i] == bank@[i]);
                }
            }
        }
        r
    }
}

} // verus!
