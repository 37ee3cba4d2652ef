//! Controller: eight buttons latched by the front end and read back by the
//! machine as one byte at port 255. Each button owns one bit of the byte.

use vstd::prelude::*;
use crate::bits::Bits;

verus! {

/// The bit of the controller byte each button owns.
pub open spec fn left_bit() -> int {
    0
}

pub open spec fn down_bit() -> int {
    1
}

pub open spec fn right_bit() -> int {
    2
}

pub open spec fn up_bit() -> int {
    3
}

pub open spec fn b_bit() -> int {
    4
}

pub open spec fn a_bit() -> int {
    5
}

pub open spec fn select_bit() -> int {
    6
}

pub open spec fn start_bit() -> int {
    7
}

/// The controller: one flag per button and the byte the machine reads.
#[derive(Debug, Clone, Copy, PartialEq, Eq)]
pub struct Controller {
    pub left: bool,
    pub down: bool,
    pub right: bool,
    pub up: bool,
    pub b: bool,
    pub a: bool,
    pub select: bool,
    pub start: bool,
    pub value: Bits<8>,
}

impl Controller {
    /// A controller with no button pressed.
    pub fn new() -> (r: Controller)
        ensures
            r.value.value() == 0,
            !r.left && !r.down && !r.right && !r.up && !r.b && !r.a && !r.select && !r.start,
    {
        Controller {
            left: false,
            down: false,
            right: false,
            up: false,
            b: false,
            a: false,
            select: false,
            start: false,
            value: Bits::<8>::zero(),
        }
    }

    pub fn set_a(&mut self, pressed: bool)
        ensures
            *final(self) == (Controller {
                a: pressed,
                value: (Bits { bit_array: spec_set_bit(old(self).value.bit_array, a_bit(), pressed) }),
                ..*old(self)
            }),
    {
        self.a = pressed;
        self.value.bit_array[5] = pressed;
        proof {
            lemma_set_bit(old(self).value.bit_array, self.value.bit_array, a_bit(), pressed);
        }
    }

    pub fn set_b(&mut self, pressed: bool)
        ensures
            *final(self) == (Controller {
                b: pressed,
                value: (Bits { bit_array: spec_set_bit(old(self).value.bit_array, b_bit(), pressed) }),
                ..*old(self)
            }),
    {
        self.b = pressed;
        self.value.bit_array[4] = pressed;
        proof {
            lemma_set_bit(old(self).value.bit_array, self.value.bit_array, b_bit(), pressed);
        }
    }

    pub fn set_up(&mut self, pressed: bool)
        ensures
            *final(self) == (Controller {
                up: pressed,
                value: (Bits { bit_array: spec_set_bit(old(self).value.bit_array, up_bit(), pressed) }),
                ..*old(self)
            }),
    {
        self.up = pressed;
        self.value.bit_array[3] = pressed;
        proof {
            lemma_set_bit(old(self).value.bit_array, self.value.bit_array, up_bit(), pressed);
        }
    }

    pub fn set_down(&mut self, pressed: bool)
        ensures
            *final(self) == (Controller {
                down: pressed,
                value: (Bits { bit_array: spec_set_bit(old(self).value.bit_array, down_bit(), pressed) }),
                ..*old(self)
            }),
    {
        self.down = pressed;
        self.value.bit_array[1] = pressed;
        proof {
            lemma_set_bit(old(self).value.bit_array, self.value.bit_array, down_bit(), pressed);
        }
    }

    pub fn set_left(&mut self, pressed: bool)
        ensures
            *final(self) == (Controller {
                left: pressed,
                value: (Bits { bit_array: spec_set_bit(old(self).value.bit_array, left_bit(), pressed) }),
                ..*old(self)
            }),
    {
        self.left = pressed;
        self.value.bit_array[0] = pressed;
        proof {
            lemma_set_bit(old(self).value.bit_array, self.value.bit_array, left_bit(), pressed);
        }
    }

    pub fn set_right(&mut self, pressed: bool)
        ensures
            *final(self) == (Controller {
                right: pressed,
                value: (Bits { bit_array: spec_set_bit(old(self).value.bit_array, right_bit(), pressed) }),
                ..*old(self)
            }),
    {
        self.right = pressed;
        self.value.bit_array[2] = pressed;
        proof {
            lemma_set_bit(old(self).value.bit_array, self.value.bit_array, right_bit(), pressed);
        }
    }

    pub fn set_select(&mut self, pressed: bool)
        ensures
            *final(self) == (Controller {
                select: pressed,
                value: (Bits { bit_array: spec_set_bit(old(self).value.bit_array, select_bit(), pressed) }),
                ..*old(self)
            }),
    {
        self.select = pressed;
        self.value.bit_array[6] = pressed;
        proof {
            lemma_set_bit(old(self).value.bit_array, self.value.bit_array, select_bit(), pressed);
        }
    }

    pub fn set_start(&mut self, pressed: bool)
        ensures
            *final(self) == (Controller {
                start: pressed,
                value: (Bits { bit_array: spec_set_bit(old(self).value.bit_array, start_bit(), pressed) }),
                ..*old(self)
            }),
    {
        self.start = pressed;
        self.value.bit_array[7] = pressed;
        proof {
            lemma_set_bit(old(self).value.bit_array, self.value.bit_array, start_bit(), pressed);
        }
    }

    /// Reads the button byte.
    pub fn on_read(&mut self, addr: Bits<8>) -> (r: Bits<8>)
        ensures
            *final(self) == *old(self),
            r == old(self).value,
    {
        self.value
    }

    /// The controller ignores writes.
    pub fn on_write(&mut self, addr: Bits<8>, value: Bits<8>)
        ensures
            *final(self) == *old(self),
    {
    }
}

/// The byte with bit `i` forced to `v` and every other bit kept.
pub open spec fn spec_set_bit(pre: [bool; 8], i: int, v: bool) -> [bool; 8]
    recommends
        0 <= i < 8,
{
    vstd::array::spec_array_update(pre, i, v)
}

/// Updating one array element in place matches `spec_set_bit`.
proof fn lemma_set_bit(pre: [bool; 8], post: [bool; 8], i: int, v: bool)
    requires
        0 <= i < 8,
        post@ == pre@.update(i, v),
    ensures
        post == spec_set_bit(pre, i, v),
{
    assert(post@ =~= spec_set_bit(pre, i, v)@);
    assert(post =~= spec_set_bit(pre, i, v));
}

} // verus!
