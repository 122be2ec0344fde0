//! Client-side core of the Tinkerforge wire protocol: the framed binary
//! codec, the request/response correlator, callback dispatch, the connection
//! lifecycle state machine, the HMAC-SHA1 authentication handshake and the
//! high-level streaming reassembly.

pub mod base58;
pub mod byte_converter;
pub mod channel;
pub mod converting_callback_receiver;
pub mod converting_high_level_callback_receiver;
pub mod converting_receiver;
pub mod device;
pub mod frame;
pub mod ip_connection;
pub mod low_level_traits;
pub mod packet;
pub mod worker;
