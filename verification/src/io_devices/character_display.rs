//! Character display: port 247 appends one character of a fixed 30-character
//! set to a bounded buffer, port 248 pushes the buffer onto the visible text,
//! port 249 clears the buffer.

use vstd::prelude::*;
use vstd::string::StrSliceExecFns;
use vstd::string::StringExecFns;
use crate::bits::Bits;

verus! {

/// The number of characters the buffer holds at most.
pub open spec fn buffer_capacity() -> nat {
    10
}

/// The display's character set: the byte written to the write port is an
/// index into this string.
pub open spec fn charset() -> Seq<char> {
    " abcdefghijklmnopqrstuvwxyz.!?"@
}

/// The character display: the staging buffer and the visible text.
#[derive(Debug, Clone, PartialEq, Eq)]
pub struct CharacterDisplay {
    pub buffer: String,
    pub active: String,
}

impl CharacterDisplay {
    /// An empty display.
    pub fn new() -> (r: CharacterDisplay)
        ensures
            r.buffer@.len() == 0,
            r.active@.len() == 0,
    {
        CharacterDisplay { buffer: String::new(), active: String::new() }
    }

    /// How a write to port `addr` with index `value` relates the display
    /// after the call to the display before it.
    pub open spec fn write_rel(
        pre: CharacterDisplay,
        post: CharacterDisplay,
        addr: nat,
        value: nat,
    ) -> bool {
        if addr == 247 {
            &&& post.active@ == pre.active@
            &&& (if pre.buffer@.len() < buffer_capacity() && value < charset().len() {
                post.buffer@ == pre.buffer@.push(charset()[value as int])
            } else {
                post.buffer@ == pre.buffer@
            })
        } else if addr == 248 {
            post.buffer@ == pre.buffer@ && post.active@ == pre.active@ + pre.buffer@
        } else if addr == 249 {
            post.buffer@.len() == 0 && post.active@ == pre.active@
        } else {
            post == pre
        }
    }

    /// Writes to the display's ports: append a character, publish the buffer,
    /// or clear it. An index outside the character set and a write to a full
    /// buffer are dropped.
    pub fn on_write(&mut self, addr: Bits<8>, value: Bits<8>)
        ensures
            CharacterDisplay::write_rel(*old(self), *final(self), addr.value(), value.value()),
    {
        proof {
            vstd::arithmetic::power2::lemma2_to64();
            crate::bitseq::lemma_bits_value_bound(addr@);
            crate::bitseq::lemma_bits_value_bound(value@);
            reveal_strlit(" abcdefghijklmnopqrstuvwxyz.!?");
        }
        let a = addr.to_usize();
        if a == 247 {
            let v = value.to_usize();
            if self.buffer.as_str().unicode_len() < 10 && v < 30 {
                let chars = " abcdefghijklmnopqrstuvwxyz.!?";
                let piece = chars.substring_char(v, v + 1);
                self.buffer.append(piece);
                proof {
                    assert(self.buffer@ =~= old(self).buffer@.push(
                        charset()[value.value() as int],
                    ));
                }
            }
        } else if a == 248 {
            let staged = self.buffer.clone();
            self.active.append(staged.as_str());
        } else if a == 249 {
            self.buffer = String::new();
        }
    }

    /// The display ignores reads.
    pub fn on_read(&mut self, addr: Bits<8>) -> (r: Bits<8>)
        ensures
            *final(self) == *old(self),
            r.value() == 0,
    {
        Bits::<8>::zero()
    }
}

} // verus!
