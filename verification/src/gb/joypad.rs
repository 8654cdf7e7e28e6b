//! The joypad and its P1 register.

use vstd::prelude::*;

verus! {

pub const BUTTON_A: u8 = 0x01;
pub const BUTTON_B: u8 = 0x02;
pub const BUTTON_SELECT: u8 = 0x04;
pub const BUTTON_START: u8 = 0x08;
pub const BUTTON_RIGHT: u8 = 0x10;
pub const BUTTON_LEFT: u8 = 0x20;
pub const BUTTON_UP: u8 = 0x40;
pub const BUTTON_DOWN: u8 = 0x80;

/// Each bit is 1 when the button is NOT pressed.
#[derive(Clone, Copy, Debug)]
pub struct Joypad {
    pub state: u8,
}

impl Joypad {
    pub fn new() -> (r: Joypad)
        ensures
            r == (Joypad { state: 0xFF }),
    {
        Joypad { state: 0xFF }
    }

    pub fn press(&mut self, button: u8)
        ensures
            *final(self) == (Joypad { state: old(self).state & !button }),
    {
        self.state = self.state & !button;
    }

    pub fn release(&mut self, button: u8)
        ensures
            *final(self) == (Joypad { state: old(self).state | button }),
    {
        self.state = self.state | button;
    }

    /// The level of the four output lines for the select bits in `p1`: bit 4
    /// low selects the D-pad row, bit 5 low the buttons row, and a line is low
    /// when either selected row pulls it low.
    pub open spec fn p1(self, p1: u8) -> u8 {
        let buttons = if p1 & 0x20 == 0 {
            self.state & 0x0F
        } else {
            0x0F
        };
        let dpad = if p1 & 0x10 == 0 {
            (self.state >> 4) & 0x0F
        } else {
            0x0F
        };
        0xC0 | (buttons & dpad)
    }

    /// Read the P1 register given the current select bits.
    pub fn read(&self, p1: u8) -> (r: u8)
        ensures
            r == self.p1(p1),
    {
        let buttons: u8 = if p1 & 0x20 == 0 {
            self.state & 0x0F
        } else {
            0x0F
        };
        let dpad: u8 = if p1 & 0x10 == 0 {
            (self.state >> 4) & 0x0F
        } else {
            0x0F
        };
        0xC0 | (buttons & dpad)
    }
}

impl Default for Joypad {
    fn default() -> (r: Joypad)
        ensures
            r == (Joypad { state: 0xFF }),
    {
        Joypad::new()
    }
}

/// A press undone by the release of the same button leaves the joypad as it
/// was, provided the button was up; a release undone by a press likewise,
/// provided it was down.
pub proof fn law_press_release(pad: Joypad, button: u8)
    ensures
        pad.state & button == button ==> (pad.state & !button) | button == pad.state,
        pad.state & button == 0 ==> (pad.state | button) & !button == pad.state,
{
    let s = pad.state;
    assert((s & button == button ==> (s & !button) | button == s) && (s & button == 0 ==> (s
        | button) & !button == s)) by (bit_vector);
}

/// With no row selected every line reads high, and a pressed button of a
/// selected row reads low on its line.
pub proof fn law_p1_rows(pad: Joypad, select: u8)
    ensures
        select & 0x30 == 0x30 ==> pad.p1(select) == 0xCF,
        select & 0x20 == 0 && pad.state & BUTTON_START == 0 ==> pad.p1(select) & 0x08 == 0,
        select & 0x10 == 0 && pad.state & BUTTON_DOWN == 0 ==> pad.p1(select) & 0x08 == 0,
{
    let s = pad.state;
    let b: u8 = if select & 0x20 == 0 { s & 0x0F } else { 0x0F };
    let d: u8 = if select & 0x10 == 0 { (s >> 4) & 0x0F } else { 0x0F };
    assert((select & 0x30 == 0x30 ==> select & 0x20 != 0 && select & 0x10 != 0)
        && 0xC0u8 | (0x0Fu8 & 0x0Fu8) == 0xCF
        && (s & 0x08 == 0 ==> (s & 0x0F) & 0x08 == 0)
        && (s & 0x80 == 0 ==> ((s >> 4) & 0x0F) & 0x08 == 0)
        && (b & 0x08 == 0 || d & 0x08 == 0 ==> (0xC0 | (b & d)) & 0x08 == 0)) by (bit_vector);
}

} // verus!
