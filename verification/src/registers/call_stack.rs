//! Call stack: a fixed-depth shift register of sixteen return addresses. A
//! push shifts every entry down and inserts at the top; a pop shifts every
//! entry up. A presence flag distinguishes an empty stack from one whose top
//! is the zero address, so underflow on return is detectable and recoverable.

use vstd::prelude::*;
use crate::bits::Bits;
use crate::control_rom::CallStackState;

verus! {

/// A machine address as the call stack stores it.
type Address = Bits<10>;

/// The call stack: sixteen entries, the presence-tracking top, the staged
/// push, and the action the current instruction selected.
#[derive(Debug, Clone, PartialEq, Eq)]
pub struct CallStack {
    pub entries: [Address; 16],
    pub stack_top: Option<Address>,
    pub write_buffer: Option<Address>,
    pub state: CallStackState,
}

impl CallStack {
    /// The tracked top, when present, is the first entry.
    pub open spec fn wf(&self) -> bool {
        self.stack_top matches Some(t) ==> self.entries@[0] == t
    }

    /// An empty stack: zeroed entries, no tracked top, nothing staged, idle.
    pub fn new() -> (r: CallStack)
        ensures
            r.wf(),
            forall|i: int| 0 <= i < 16 ==> r.entries@[i].value() == 0,
            r.stack_top is None,
            r.write_buffer is None,
            r.state == CallStackState::Disabled,
    {
        let zero = Bits::<10>::zero();
        CallStack {
            entries: [zero;16],
            stack_top: None,
            write_buffer: None,
            state: CallStackState::Disabled,
        }
    }

    /// Stages a push of `address`; it takes effect at `clock`, and only when
    /// the instruction selected a push.
    pub fn push(&mut self, address: Address)
        requires
            old(self).wf(),
        ensures
            final(self).wf(),
            final(self).entries == old(self).entries,
            final(self).stack_top == old(self).stack_top,
            final(self).state == old(self).state,
            old(self).state == CallStackState::Push ==> final(self).write_buffer == Some(address),
            old(self).state != CallStackState::Push ==> final(self).write_buffer == old(self).write_buffer,
    {
        match self.state {
            CallStackState::Push => {
                self.write_buffer = Some(address);
            },
            _ => {},
        }
    }

    /// Commits a staged push: every entry shifts down one place, the oldest
    /// entry falls off the bottom, and the pushed address becomes the top.
    pub fn clock(&mut self)
        requires
            old(self).wf(),
        ensures
            final(self).wf(),
            final(self).state == old(self).state,
            old(self).write_buffer is None ==> *final(self) == *old(self),
            old(self).write_buffer matches Some(a) ==> {
                &&& final(self).write_buffer is None
                &&& final(self).stack_top == Some(a)
                &&& final(self).entries@[0] == a
                &&& forall|i: int|
                    1 <= i < 16 ==> final(self).entries@[i] == old(self).entries@[i - 1]
            },
    {
        let buffered = self.write_buffer;
        match buffered {
            None => {},
            Some(address) => {
                self.write_buffer = None;
                let mut entries = self.entries;
                let mut i: usize = 15;
                while i >= 1
                    invariant
                        0 <= i <= 15,
                        forall|j: int| 0 <= j <= i ==> entries@[j] == old(self).entries@[j],
                        forall|j: int|
                            i < j < 16 ==> entries@[j] == old(self).entries@[j - 1],
                    decreases i,
                {
                    entries[i] = entries[i - 1];
                    proof {
                        assert(entries@[i as int] == old(self).entries@[i - 1]);
                    }
                    i -= 1;
                }
                entries[0] = address;
                self.entries = entries;
                self.stack_top = Some(address);
            },
        }
    }

    /// Pops the top address. On an empty stack this is an underflow: it
    /// returns `None` and alters nothing. Otherwise every entry shifts up one
    /// place, a zero address fills the bottom, and the popped address is
    /// returned; the presence flag survives only while the popped address was
    /// nonzero.
    pub fn pop(&mut self) -> (r: Option<Address>)
        requires
            old(self).wf(),
        ensures
            final(self).wf(),
            final(self).state == old(self).state,
            final(self).write_buffer == old(self).write_buffer,
            old(self).stack_top is None ==> r is None && *final(self) == *old(self),
            old(self).stack_top matches Some(top) ==> {
                &&& r == Some(top)
                &&& forall|i: int|
                    0 <= i < 15 ==> final(self).entries@[i] == old(self).entries@[i + 1]
                &&& final(self).entries@[15].value() == 0
                &&& final(self).stack_top == (if top.value() == 0 {
                    Option::<Address>::None
                } else {
                    Some(old(self).entries@[1])
                })
            },
    {
        let top_entry = self.stack_top;
        match top_entry {
            None => None,
            Some(top) => {
                let mut entries = self.entries;
                let mut i: usize = 0;
                while i < 15
                    invariant
                        0 <= i <= 15,
                        forall|j: int| 0 <= j < i ==> entries@[j] == old(self).entries@[j + 1],
                        forall|j: int| i <= j < 16 ==> entries@[j] == old(self).entries@[j],
                    decreases 15 - i,
                {
                    entries[i] = entries[i + 1];
                    i += 1;
                }
                entries[15] = Bits::<10>::zero();
                self.entries = entries;
                proof {
                    vstd::arithmetic::power2::lemma2_to64();
                    crate::bitseq::lemma_bits_value_bound(top@);
                }
                let is_zero = top.to_usize() == 0;
                if is_zero {
                    self.stack_top = None;
                } else {
                    self.stack_top = Some(self.entries[0]);
                }
                Some(top)
            },
        }
    }
}

impl Default for CallStack {
    /// An empty stack.
    fn default() -> (r: CallStack)
        ensures
            r.wf(),
            forall|i: int| 0 <= i < 16 ==> r.entries@[i].value() == 0,
            r.stack_top is None,
            r.write_buffer is None,
            r.state == CallStackState::Disabled,
    {
        CallStack::new()
    }
}

} // verus!
