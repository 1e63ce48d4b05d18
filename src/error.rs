use vstd::prelude::*;

verus! {

/// What can go wrong while moving one framed value.
#[derive(Debug, Clone, Copy, PartialEq, Eq, Structural)]
pub enum ChannelError {
    /// The stream failed or ended before the whole frame was moved.
    Io,
    /// The value could not be turned into a payload that fits a frame.
    Encode,
    /// The payload did not decode into the requested type.
    Decode,
}

} // verus!
