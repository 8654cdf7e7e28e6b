//! Shared audio types.

use vstd::prelude::*;

verus! {

/// One audio sample as an integer; each core states what full scale is.
pub type Sample = i16;

/// Interleaved stereo sample buffer.
#[derive(Clone, Debug)]
pub struct AudioBuffer {
    pub samples: Vec<Sample>,
}

impl View for AudioBuffer {
    type V = Seq<Sample>;

    open spec fn view(&self) -> Seq<Sample> {
        self.samples@
    }
}

impl AudioBuffer {
    pub fn new() -> (r: AudioBuffer)
        ensures
            r@ == Seq::<Sample>::empty(),
    {
        AudioBuffer { samples: Vec::new() }
    }

    pub fn with_capacity(n: usize) -> (r: AudioBuffer)
        ensures
            r@ == Seq::<Sample>::empty(),
    {
        AudioBuffer { samples: Vec::with_capacity(n) }
    }

    /// Append a stereo pair, left first.
    pub fn push(&mut self, left: Sample, right: Sample)
        ensures
            final(self)@ == old(self)@.push(left).push(right),
    {
        self.samples.push(left);
        self.samples.push(right);
    }

    pub fn is_empty(&self) -> (r: bool)
        ensures
            r <==> self@.len() == 0,
    {
        self.samples.len() == 0
    }

    pub fn clear(&mut self)
        ensures
            final(self)@ == Seq::<Sample>::empty(),
    {
        self.samples.clear();
    }
}

impl Default for AudioBuffer {
    fn default() -> (r: AudioBuffer)
        ensures
            r@ == Seq::<Sample>::empty(),
    {
        AudioBuffer::new()
    }
}

} // verus!
