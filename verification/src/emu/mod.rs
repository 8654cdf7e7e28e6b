//! What every console core shares.

use vstd::prelude::*;

pub mod audio;
pub mod bus;
pub mod device;
pub mod input;
pub mod layout;
pub mod mem;
pub mod state;
pub mod storage;
pub mod text;
pub mod video;

verus! {

/// Common error type for core operations.
#[derive(Debug, Clone, PartialEq, Eq)]
pub enum Error {
    InvalidRom(String),
    UnsupportedSystem(String),
    OutOfMemory,
}

impl Error {
    /// What the error says.
    pub open spec fn text(self) -> Seq<char> {
        match self {
            Error::InvalidRom(m) => "invalid ROM: "@ + m@,
            Error::UnsupportedSystem(m) => "unsupported system: "@ + m@,
            Error::OutOfMemory => "out of memory"@,
        }
    }

    /// The error as a message.
    pub fn message(&self) -> (r: String)
        ensures
            r@ == self.text(),
    {
        match self {
            Error::InvalidRom(m) => {
                let mut s = "invalid ROM: ".to_owned();
                s.push_str(m.as_str());
                s
            },
            Error::UnsupportedSystem(m) => {
                let mut s = "unsupported system: ".to_owned();
                s.push_str(m.as_str());
                s
            },
            Error::OutOfMemory => "out of memory".to_owned(),
        }
    }
}

/// The native resolution of a console's framebuffer.
#[derive(Clone, Copy, PartialEq, Eq, Structural, Debug)]
pub struct Screen {
    pub width: u16,
    pub height: u16,
}

impl Screen {
    pub fn new(width: u16, height: u16) -> (r: Screen)
        ensures
            r == (Screen { width, height }),
    {
        Screen { width, height }
    }

    pub fn pixels(&self) -> (r: usize)
        ensures
            r == self.width * self.height,
    {
        assert(self.width * self.height <= 0xFFFF * 0xFFFF) by (nonlinear_arith)
            requires
                self.width <= 0xFFFF,
                self.height <= 0xFFFF,
        ;
        self.width as usize * self.height as usize
    }
}

} // verus!
