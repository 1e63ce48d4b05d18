//! Length-prefixed object framing over any bidirectional byte stream.
//!
//! A frame is a 4-byte little-endian length `L` followed by exactly `L`
//! payload bytes. The payload is whatever a codec made of a value; the
//! channel moves bytes and never looks inside them.
use vstd::prelude::*;

pub mod error;
pub mod frame;
pub mod stream;
pub mod channel;

pub use error::ChannelError;
pub use channel::{Decode, Encode, ObjectStream};
pub use stream::{ByteStream, MemStream};
