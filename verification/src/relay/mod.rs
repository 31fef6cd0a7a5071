pub mod channel;
pub mod client;
pub mod service;

pub use channel::ClientId;
pub use service::{Relay, RelayError};
