//! Animation descriptors: a contiguous frame range, a horizontal-flip flag,
//! and a total playback duration.

use vstd::prelude::*;

verus! {

/// Describes one animation: the frames `start .. start + count` of the
/// owning sprite sheet, whether the sprite is mirrored horizontally, and the
/// total time the animation takes, in microseconds.
#[derive(Debug, Clone, Copy, PartialEq, Eq, Structural)]
pub struct CharacterAnimation {
    pub start: usize,
    pub count: usize,
    pub flip_x: bool,
    /// Total time to finish the animation, in microseconds.
    pub animation_duration: u64,
}

impl CharacterAnimation {
    /// A descriptor is well formed when it has at least one frame, a positive
    /// duration, and a frame range that fits in `usize`.
    pub open spec fn inv(self) -> bool {
        &&& self.count > 0
        &&& self.animation_duration > 0
        &&& self.start + self.count <= usize::MAX
    }

    /// The time each frame stays on screen: the total duration split evenly
    /// over the frames (rounded down to whole microseconds).
    pub open spec fn spec_frame_duration(self) -> int {
        self.animation_duration as int / self.count as int
    }

    pub fn new(start: usize, count: usize, flip_x: bool, animation_duration: u64) -> (r: Self)
        ensures
            r == (CharacterAnimation { start, count, flip_x, animation_duration }),
    {
        CharacterAnimation { start, count, flip_x, animation_duration }
    }

    /// The per-frame duration in microseconds.
    pub fn frame_duration(&self) -> (d: u64)
        requires
            self.count > 0,
        ensures
            d == self.spec_frame_duration(),
    {
        self.animation_duration / (self.count as u64)
    }
}

} // verus!
