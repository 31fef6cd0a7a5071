//! Encoded media handed from a video encoder to the relay.

use vstd::prelude::*;

pub mod encoder;

verus! {

/// One unit of encoded video. Times are in nanoseconds, where the encoder
/// knows them.
pub struct EncodedVideoUnit {
    pub timestamp: Option<u64>,
    pub duration: Option<u64>,
    pub keyframe: bool,
    pub data: Vec<u8>,
}

} // verus!
