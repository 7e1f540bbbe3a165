//! Authenticated heartbeat exchange: the beat codec, the per-peer liveness
//! table and the framing of the local control channel.

pub mod alert;
pub mod beat;
pub mod clock;
pub mod control;
pub mod flatconf;
pub mod ipc;
pub mod server;
pub mod stats;
pub mod table;
pub mod text;
pub mod wire;
