//! Signaling fabric and per-client session logic of a WebRTC voice platform.
//!
//! - `server_mngr`, with `registry_model` and `registry_laws`: the peer
//!   registry of the signaling server and what holds of it.
//! - `signaling_session`: admission, routing and cleanup of worker and client
//!   connections.
//! - `signaling_msgs` and `wire`: the message schema and its text encoding.
//! - `uplink`, `msg_bus` and `bot`: a media worker's link to the signaling
//!   server, its routing of messages to bots, and each bot's negotiation.
//! - `en_decoder`, `vad_asr` and `pipeline`: decoded audio on its way to the
//!   speech capabilities.

pub mod bot;
pub mod config;
pub mod en_decoder;
pub mod ids;
pub mod msg_bus;
pub mod msgs;
pub mod pipeline;
pub mod registry_laws;
pub mod registry_model;
pub mod server_mngr;
pub mod signaling_msgs;
pub mod signaling_session;
pub mod uplink;
pub mod vad_asr;
pub mod wire;
