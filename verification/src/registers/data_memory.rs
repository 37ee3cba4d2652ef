//! Data memory: 256 bytes with an enable line and a read/write/disabled mode.
//! A write is staged and commits on `clock` only while enabled and in write
//! mode; a read returns the stored byte only while enabled and in read mode,
//! and zero otherwise.

use vstd::prelude::*;
use vstd::arithmetic::power2::lemma2_to64;
use crate::bits::Bits;
use crate::bitseq::lemma_bits_value_bound;

verus! {

/// How the memory takes part in the current instruction.
#[derive(Debug, Clone, Copy, PartialEq, Eq, Structural, Default)]
pub enum MemoryState {
    #[default]
    Disabled,
    Read,
    Write,
}

/// The memory's state: the byte array, the enable line, the access mode, and
/// the staged write.
#[derive(Debug, Clone, PartialEq, Eq)]
pub struct DataMemory {
    pub memory: [Bits<8>; 256],
    pub enabled: bool,
    pub state: MemoryState,
    pub write_buffer: Option<(Bits<8>, Bits<8>)>,
}

impl DataMemory {
    /// Turns the memory off or on; disabling drops the staged write.
    pub fn enable(&mut self, enabled: bool)
        ensures
            final(self).enabled == enabled,
            final(self).memory == old(self).memory,
            final(self).state == old(self).state,
            enabled ==> final(self).write_buffer == old(self).write_buffer,
            !enabled ==> final(self).write_buffer is None,
    {
        self.enabled = enabled;
        if !enabled {
            self.write_buffer = None;
        }
    }

    /// Selects the access mode.
    pub fn set_state(&mut self, state: MemoryState)
        ensures
            final(self).state == state,
            final(self).memory == old(self).memory,
            final(self).enabled == old(self).enabled,
            final(self).write_buffer == old(self).write_buffer,
    {
        self.state = state;
    }

    /// Stages a write of `data` to `address`; ignored unless the memory is
    /// enabled and in write mode.
    pub fn schedule_write(&mut self, write_info: (Bits<8>, Bits<8>))
        ensures
            final(self).memory == old(self).memory,
            final(self).enabled == old(self).enabled,
            final(self).state == old(self).state,
            old(self).enabled && old(self).state == MemoryState::Write ==> final(self).write_buffer == Some(write_info),
            !(old(self).enabled && old(self).state == MemoryState::Write) ==> final(self).write_buffer == old(self).write_buffer,
    {
        if self.enabled {
            match self.state {
                MemoryState::Write => {
                    self.write_buffer = Some(write_info);
                },
                _ => {},
            }
        }
    }

    /// Commits the staged write, if the memory is enabled and one is staged.
    pub fn clock(&mut self)
        ensures
            final(self).enabled == old(self).enabled,
            final(self).state == old(self).state,
            !(old(self).enabled && old(self).write_buffer is Some) ==> *final(self) == *old(self),
            old(self).enabled ==> (old(self).write_buffer matches Some((address, data)) ==> {
                &&& final(self).write_buffer is None
                &&& forall|i: int|
                    0 <= i < 256 ==> final(self).memory@[i] == (if i == address.value() {
                        data
                    } else {
                        old(self).memory@[i]
                    })
            }),
    {
        if self.enabled {
            let buffered = self.write_buffer;
            match buffered {
                None => {},
                Some((address, data)) => {
                    self.write_buffer = None;
                    proof {
                        lemma2_to64();
                        lemma_bits_value_bound(address@);
                    }
                    let idx = address.to_usize();
                    self.memory[idx] = data;
                },
            }
        }
    }

    /// The byte at `address` while the memory is enabled and in read mode;
    /// zero otherwise.
    pub fn read(&self, address: Bits<8>) -> (r: Bits<8>)
        ensures
            self.enabled && self.state == MemoryState::Read ==> r == self.memory@[address.value() as int],
            !(self.enabled && self.state == MemoryState::Read) ==> r.value() == 0,
    {
        proof {
            lemma2_to64();
            lemma_bits_value_bound(address@);
        }
        if self.enabled {
            match self.state {
                MemoryState::Read => self.memory[address.to_usize()],
                _ => Bits::<8>::zero(),
            }
        } else {
            Bits::<8>::zero()
        }
    }
}

impl Default for DataMemory {
    /// Zeroed memory, enabled, in read mode, with nothing staged.
    fn default() -> (r: DataMemory)
        ensures
            forall|i: int| 0 <= i < 256 ==> r.memory@[i].value() == 0,
            r.enabled,
            r.state == MemoryState::Read,
            r.write_buffer is None,
    {
        DataMemory {
            memory: [Bits::<8>::zero();256],
            enabled: true,
            state: MemoryState::Read,
            write_buffer: None,
        }
    }
}

} // verus!
