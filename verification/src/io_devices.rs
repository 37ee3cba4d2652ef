//! Memory-mapped devices: addresses 240 to 255 of the data address space are
//! redirected here instead of data memory. The screen owns ports 240 to 246,
//! the character display 247 to 249, the number display 250 to 253, the
//! pseudo-random generator 254, and the controller 255.

pub mod character_display;
pub mod controller;
pub mod number_display;
pub mod rng;
pub mod screen;

use vstd::prelude::*;
use vstd::arithmetic::power2::lemma2_to64;
use crate::bits::Bits;
use crate::bitseq::lemma_bits_value_bound;
use crate::io_devices::character_display::CharacterDisplay;
use crate::io_devices::controller::Controller;
use crate::io_devices::number_display::NumberDisplay;
use crate::io_devices::rng::RNG;
use crate::io_devices::screen::Screen;

verus! {

/// All memory-mapped devices of one machine.
#[derive(Debug)]
pub struct IoDevices {
    pub character_display: CharacterDisplay,
    pub number_display: NumberDisplay,
    pub rng: RNG,
    pub screen: Screen,
    pub controller: Controller,
}

impl IoDevices {
    /// The devices' joint invariant.
    pub open spec fn wf(&self) -> bool {
        self.screen.wf()
    }

    /// How one device write at `addr` relates the devices after the call to
    /// the devices before it: the addressed device steps, the others stay.
    pub open spec fn write_rel(pre: IoDevices, post: IoDevices, addr: nat, value: Bits<8>) -> bool {
        &&& (if 240 <= addr <= 246 {
            Screen::write_rel(pre.screen, post.screen, addr, value@)
        } else {
            post.screen == pre.screen
        })
        &&& (if 247 <= addr <= 249 {
            CharacterDisplay::write_rel(
                pre.character_display,
                post.character_display,
                addr,
                value.value(),
            )
        } else {
            post.character_display == pre.character_display
        })
        &&& (if 250 <= addr <= 253 {
            NumberDisplay::write_rel(pre.number_display, post.number_display, addr, value@)
        } else {
            post.number_display == pre.number_display
        })
        &&& post.rng == pre.rng
        &&& post.controller == pre.controller
    }

    /// How one device read at `addr` relates result and state: the screen
    /// reports the selected pixel, the pseudo-random generator steps and
    /// reports its new state, the controller reports the buttons, and every
    /// other port reads zero.
    pub open spec fn read_rel(pre: IoDevices, post: IoDevices, addr: nat, r: Bits<8>) -> bool {
        &&& (if addr == 244 {
            r == Screen::read_result(pre.screen) && post.screen == pre.screen
        } else if addr == 254 {
            RNG::read_rel(pre.rng, post.rng, r)
        } else if addr == 255 {
            r == pre.controller.value && post.rng == pre.rng
        } else {
            r.value() == 0 && post.rng == pre.rng
        })
        &&& (addr != 254 ==> post.rng == pre.rng)
        &&& post.screen == pre.screen
        &&& post.character_display == pre.character_display
        &&& post.number_display == pre.number_display
        &&& post.controller == pre.controller
    }

    /// Forwards a write to the device that owns `addr`; writes to ports no
    /// device owns are dropped.
    pub fn on_write(&mut self, addr: Bits<8>, value: Bits<8>)
        requires
            old(self).wf(),
        ensures
            final(self).wf(),
            IoDevices::write_rel(*old(self), *final(self), addr.value(), value),
    {
        proof {
            lemma2_to64();
            lemma_bits_value_bound(addr@);
        }
        let a = addr.to_usize();
        if 240 <= a && a <= 246 {
            self.screen.on_write(addr, value);
        } else if 247 <= a && a <= 249 {
            self.character_display.on_write(addr, value);
        } else if 250 <= a && a <= 253 {
            self.number_display.on_write(addr, value);
        }
    }

    /// Forwards a read to the device that owns `addr`; ports no device serves
    /// read zero.
    pub fn on_read(&mut self, addr: Bits<8>) -> (r: Bits<8>)
        requires
            old(self).wf(),
        ensures
            final(self).wf(),
            IoDevices::read_rel(*old(self), *final(self), addr.value(), r),
    {
        proof {
            lemma2_to64();
            lemma_bits_value_bound(addr@);
        }
        let a = addr.to_usize();
        if a == 244 {
            self.screen.on_read(addr)
        } else if a == 254 {
            self.rng.on_read(addr)
        } else if a == 255 {
            self.controller.on_read(addr)
        } else {
            Bits::<8>::zero()
        }
    }
}

impl Default for IoDevices {
    /// Fresh devices; the pseudo-random generator draws a nonzero seed.
    fn default() -> (r: IoDevices)
        ensures
            r.wf(),
            r.screen.current_x == 0,
            r.screen.current_y == 0,
            forall|y: int, x: int| 0 <= y < 32 && 0 <= x < 32 ==> !r.screen.buffer@[y]@[x],
            forall|y: int, x: int| 0 <= y < 32 && 0 <= x < 32 ==> !r.screen.active@[y]@[x],
            r.character_display.buffer@.len() == 0,
            r.character_display.active@.len() == 0,
            r.number_display == NumberDisplay::spec_new(),
            r.rng.state.value() > 0,
            r.controller.value.value() == 0,
            !r.controller.left && !r.controller.down && !r.controller.right && !r.controller.up
                && !r.controller.b && !r.controller.a && !r.controller.select
                && !r.controller.start,
    {
        IoDevices {
            character_display: CharacterDisplay::new(),
            number_display: NumberDisplay::new(),
            rng: RNG::new_random(),
            screen: Screen::new(),
            controller: Controller::new(),
        }
    }
}

} // verus!
