pub mod bytes;
pub mod framing;
pub mod message;
