//! Addressable memory and bus abstraction.

use vstd::prelude::*;

verus! {

/// A unit that can be read from / written to over a bus.
///
/// Addresses are `u32` so the trait works for both 16-bit (GB) and 32-bit
/// (GBA) address spaces; 16-bit systems simply cast down.
pub trait Addressable: Sized {
    /// Whether the unit can be accessed.
    spec fn accessible(&self) -> bool;

    /// The byte seen at `addr`.
    spec fn byte_at(&self, addr: u32) -> u8;

    /// Whether `after` is `before` with `value` written at `addr`.
    spec fn is_written(before: Self, addr: u32, value: u8, after: Self) -> bool;

    fn read(&self, addr: u32) -> (r: u8)
        requires
            self.accessible(),
        ensures
            r == self.byte_at(addr),
    ;

    fn write(&mut self, addr: u32, value: u8)
        requires
            old(self).accessible(),
        ensures
            final(self).accessible(),
            Self::is_written(*old(self), addr, value, *final(self)),
    ;
}

/// A system memory bus that routes addresses to attached devices and drives
/// their clock.
pub trait Bus: Addressable {
    /// Whether the machine can be advanced by `cycles` at once.
    spec fn clockable(&self, cycles: u32) -> bool;

    /// Whether `after` is `before`, `cycles` master cycles on.
    spec fn is_ticked(before: Self, cycles: u32, after: Self) -> bool;

    /// Whether `after` is `before` with an interrupt requested.
    spec fn is_requested(before: Self, bit: u32, after: Self) -> bool;

    /// Advance the whole machine (all attached devices) by `cycles` master
    /// cycles. Returns nothing; state changes happen on the bus itself.
    fn tick(&mut self, cycles: u32)
        requires
            old(self).clockable(cycles),
        ensures
            Self::is_ticked(*old(self), cycles, *final(self)),
    ;

    /// Request an interrupt by its system-defined bit index.
    fn request_interrupt(&mut self, bit: u32)
        ensures
            Self::is_requested(*old(self), bit, *final(self)),
    ;
}

} // verus!
