//! A pub/sub relay: wire framing, protocol messages, channel bookkeeping and
//! the relay service that decides where published data goes.

pub mod media;
pub mod protocol;
pub mod relay;
pub mod session;
pub mod tls;
