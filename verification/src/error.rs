//! The errors that the renderer reports.
use vstd::prelude::*;

verus! {

/// A command that cannot be carried out as it stands.
#[derive(Debug, Clone, Copy, PartialEq, Eq, Structural)]
pub enum ConfigurationError {
    /// A rotation about an axis other than x (0), y (1) or z (2).
    UnknownAxis,
    /// A frame was popped while only the base frame was left.
    StackUnderflow,
    /// A knob was asked for under a name that was never varied.
    UnknownKnob,
    /// A knob was asked for at a frame beyond the end of its track.
    FrameOutOfRange,
    /// A knob was varied over a range whose first and last frame coincide.
    ZeroLengthVary,
    /// A knob was varied over a range that ends before it starts, or that
    /// ends beyond the end of the knob's track.
    VaryOutOfRange,
}

/// A screen that cannot be written out.
#[derive(Debug, Clone, Copy, PartialEq, Eq, Structural)]
pub enum EncodingError {
    /// The pixel with this index, counted row by row from the bottom left,
    /// holds a channel that exceeds the largest channel value.
    ChannelOutOfRange { index: usize },
}

} // verus!
