//! Screen: a 32 by 32 pixel grid drawn into a staging buffer and published as
//! a whole. Ports 240 and 241 select a pixel, 242 and 243 draw or clear it in
//! the buffer, 244 reads the published pixel, 245 publishes the buffer, 246
//! clears it.

use vstd::prelude::*;
use vstd::arithmetic::power2::lemma2_to64;
use crate::bits::Bits;
use crate::bitseq::lemma_bits_value_bound;

verus! {

/// The screen: the selected coordinates, the staging buffer, and the
/// published pixels.
#[derive(Debug, Clone, Copy, PartialEq, Eq)]
pub struct Screen {
    pub current_x: usize,
    pub current_y: usize,
    pub buffer: [[bool; 32]; 32],
    pub active: [[bool; 32]; 32],
}

impl Screen {
    /// The selected coordinates stay on the grid.
    pub open spec fn wf(&self) -> bool {
        self.current_x < 32 && self.current_y < 32
    }

    /// A blank screen.
    pub fn new() -> (r: Screen)
        ensures
            r.wf(),
            r.current_x == 0,
            r.current_y == 0,
            forall|y: int, x: int| 0 <= y < 32 && 0 <= x < 32 ==> !r.buffer@[y]@[x],
            forall|y: int, x: int| 0 <= y < 32 && 0 <= x < 32 ==> !r.active@[y]@[x],
    {
        let blank: [[bool; 32]; 32] = [[false;32];32];
        Screen { current_x: 0, current_y: 0, buffer: blank, active: blank }
    }

    /// How a write to port `addr` of the value's low five bits relates the
    /// screen after the call to the screen before it.
    pub open spec fn write_rel(pre: Screen, post: Screen, addr: nat, value: Seq<bool>) -> bool {
        let v = crate::bitseq::bits_value(value.take(5));
        if addr == 240 {
            post == (Screen { current_x: v as usize, ..pre })
        } else if addr == 241 {
            post == (Screen { current_y: v as usize, ..pre })
        } else if addr == 242 {
            &&& post.current_x == pre.current_x
            &&& post.current_y == pre.current_y
            &&& post.active == pre.active
            &&& grid_update(pre.buffer, post.buffer, pre.current_y as int, pre.current_x as int, true)
        } else if addr == 243 {
            &&& post.current_x == pre.current_x
            &&& post.current_y == pre.current_y
            &&& post.active == pre.active
            &&& grid_update(pre.buffer, post.buffer, pre.current_y as int, pre.current_x as int, false)
        } else if addr == 245 {
            post == (Screen { active: pre.buffer, ..pre })
        } else if addr == 246 {
            &&& post.current_x == pre.current_x
            &&& post.current_y == pre.current_y
            &&& post.active == pre.active
            &&& forall|y: int, x: int| 0 <= y < 32 && 0 <= x < 32 ==> !post.buffer@[y]@[x]
        } else {
            post == pre
        }
    }

    /// The byte the published pixel at the selected coordinates reads as.
    pub open spec fn read_result(pre: Screen) -> Bits<8> {
        Bits::<8>::of_value(
            if pre.active@[pre.current_y as int]@[pre.current_x as int] {
                1
            } else {
                0
            },
        )
    }

    /// Writes to the screen's ports: select a pixel, draw or clear it in the
    /// buffer, publish the buffer, or blank it.
    pub fn on_write(&mut self, addr: Bits<8>, value: Bits<8>)
        requires
            old(self).wf(),
        ensures
            final(self).wf(),
            Screen::write_rel(*old(self), *final(self), addr.value(), value@),
    {
        proof {
            lemma2_to64();
            lemma_bits_value_bound(addr@);
        }
        let sel: Bits<5> = value.slice::<5>(0);
        proof {
            lemma_bits_value_bound(sel@);
            assert(sel@ =~= value@.take(5));
        }
        let v = sel.to_usize();
        let a = addr.to_usize();
        if a == 240 {
            self.current_x = v;
        } else if a == 241 {
            self.current_y = v;
        } else if a == 242 {
            let mut row = self.buffer[self.current_y];
            row[self.current_x] = true;
            self.buffer[self.current_y] = row;
        } else if a == 243 {
            let mut row = self.buffer[self.current_y];
            row[self.current_x] = false;
            self.buffer[self.current_y] = row;
        } else if a == 245 {
            self.active = self.buffer;
        } else if a == 246 {
            let blank: [[bool; 32]; 32] = [[false;32];32];
            self.buffer = blank;
        }
    }

    /// Reads the published pixel at the selected coordinates; the screen's
    /// only readable port.
    pub fn on_read(&mut self, addr: Bits<8>) -> (r: Bits<8>)
        requires
            old(self).wf(),
            addr.value() == 244,
        ensures
            *final(self) == *old(self),
            r == Screen::read_result(*old(self)),
    {
        let lit = self.active[self.current_y][self.current_x];
        let r = if lit {
            Bits::<8>::from_unsigned_truncated(1)
        } else {
            Bits::<8>::zero()
        };
        proof {
            lemma2_to64();
            Bits::<8>::lemma_of_value(r);
        }
        r
    }
}

/// One pixel of a grid changed, every other pixel kept.
pub open spec fn grid_update(
    pre: [[bool; 32]; 32],
    post: [[bool; 32]; 32],
    y: int,
    x: int,
    value: bool,
) -> bool {
    forall|j: int, i: int|
        0 <= j < 32 && 0 <= i < 32 ==> post@[j]@[i] == (if j == y && i == x {
            value
        } else {
            pre@[j]@[i]
        })
}


} // verus!
