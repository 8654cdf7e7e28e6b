//! Shared logical button identifiers, used across consoles.
//!
//! Each console maps these to its own bitmask internally, so a frontend can
//! use one uniform set of inputs for every console it hosts.

use vstd::prelude::*;

verus! {

#[derive(Clone, Copy, PartialEq, Eq, Structural, Hash, Debug)]
pub enum Button {
    A,
    B,
    X,
    Y,
    L,
    R,
    ZL,
    ZR,
    Start,
    Select,
    Up,
    Down,
    Left,
    Right,
}

impl Button {
    /// All buttons, in a stable order (useful for iterating a keymap).
    pub const ALL: [Button; 14] = [
        Button::A,
        Button::B,
        Button::X,
        Button::Y,
        Button::L,
        Button::R,
        Button::ZL,
        Button::ZR,
        Button::Start,
        Button::Select,
        Button::Up,
        Button::Down,
        Button::Left,
        Button::Right,
    ];

    /// The name printed on the button.
    pub open spec fn name(self) -> Seq<char> {
        match self {
            Button::A => "A"@,
            Button::B => "B"@,
            Button::X => "X"@,
            Button::Y => "Y"@,
            Button::L => "L"@,
            Button::R => "R"@,
            Button::ZL => "ZL"@,
            Button::ZR => "ZR"@,
            Button::Start => "Start"@,
            Button::Select => "Select"@,
            Button::Up => "Up"@,
            Button::Down => "Down"@,
            Button::Left => "Left"@,
            Button::Right => "Right"@,
        }
    }

    pub fn label(self) -> (r: &'static str)
        ensures
            r@ == self.name(),
    {
        match self {
            Button::A => "A",
            Button::B => "B",
            Button::X => "X",
            Button::Y => "Y",
            Button::L => "L",
            Button::R => "R",
            Button::ZL => "ZL",
            Button::ZR => "ZR",
            Button::Start => "Start",
            Button::Select => "Select",
            Button::Up => "Up",
            Button::Down => "Down",
            Button::Left => "Left",
            Button::Right => "Right",
        }
    }
}

/// Every button is listed once.
pub proof fn law_all_buttons_are_listed(button: Button)
    ensures
        exists|i: int| 0 <= i < 14 && #[trigger] Button::ALL[i] == button,
        forall|i: int, j: int|
            0 <= i < j < 14 ==> #[trigger] Button::ALL[i] != #[trigger] Button::ALL[j],
{
    let i: int = match button {
        Button::A => 0,
        Button::B => 1,
        Button::X => 2,
        Button::Y => 3,
        Button::L => 4,
        Button::R => 5,
        Button::ZL => 6,
        Button::ZR => 7,
        Button::Start => 8,
        Button::Select => 9,
        Button::Up => 10,
        Button::Down => 11,
        Button::Left => 12,
        Button::Right => 13,
    };
    assert(Button::ALL[i] == button);
}

/// A two-axis analog control. Cores without one ignore it.
#[derive(Clone, Copy, PartialEq, Eq, Structural, Hash, Debug)]
pub enum Axis {
    /// The primary analog pad (the 3DS circle pad).
    CirclePad,
    /// The secondary analog nub (the New 3DS C-stick).
    CStick,
}

/// Accelerometer and gyroscope readings in raw sensor units, `[x, y, z]`.
#[derive(Clone, Copy, PartialEq, Eq, Debug)]
pub struct Motion {
    pub accel: [i16; 3],
    pub gyro: [i16; 3],
}

impl Default for Motion {
    /// At rest.
    fn default() -> (r: Motion)
        ensures
            forall|i: int| 0 <= i < 3 ==> r.accel[i] == 0 && r.gyro[i] == 0,
    {
        Motion { accel: [0; 3], gyro: [0; 3] }
    }
}

} // verus!
