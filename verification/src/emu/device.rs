//! Clocked hardware device abstraction.

use vstd::prelude::*;

verus! {

/// A clocked hardware unit attached to a bus of type `B` (PPU, APU, timer,
/// joypad, ...).
///
/// Devices are advanced by the bus's `tick`, which supplies the shared memory
/// context so devices can read/write system state.
pub trait Device<B>: Sized {
    /// The device's name.
    spec fn name(&self) -> Seq<char>;

    /// Whether the device is in its power-on state.
    spec fn is_reset(&self) -> bool;

    /// Whether the device can be advanced by `cycles` at once.
    spec fn clockable(&self, cycles: u32) -> bool;

    /// Whether a tick of `cycles` leads from the first device and bus to the
    /// second.
    spec fn is_ticked(before: Self, bus: B, cycles: u32, after: Self, bus_after: B) -> bool;

    /// Short human-readable device name, e.g. `"PPU"`, `"APU"`, `"Timer"`.
    fn kind(&self) -> (r: &'static str)
        ensures
            r@ == self.name(),
    ;

    /// Reset the device to its power-on state.
    fn reset(&mut self)
        ensures
            final(self).is_reset(),
    ;

    /// Advance the device by `cycles` master cycles.
    fn tick(&mut self, cycles: u32, bus: &mut B)
        requires
            old(self).clockable(cycles),
        ensures
            Self::is_ticked(*old(self), *old(bus), cycles, *final(self), *final(bus)),
    ;
}

} // verus!
