//! The configuration and interface that video encoders share.

use vstd::prelude::*;
use crate::media::EncodedVideoUnit;

verus! {

/// The capture and encoding parameters of a video stream.
#[derive(Clone, Debug)]
pub struct VideoConfig {
    pub width: i32,
    pub height: i32,
    pub fps: i32,
    pub bitrate: i32,
}

/// A source of encoded video units, implemented by each encoder backend.
pub trait VideoEncoder {
    type Error;

    fn encode(&mut self) -> Result<Vec<EncodedVideoUnit>, Self::Error>;
}

} // verus!
