//! MQTT session engine of a WiFi LED controller: packet framing, topic
//! routing, payload models, the outbound queue and the session and
//! connection state machines.
pub mod buffer;
pub mod frame;
pub mod topic;
pub mod payload;
pub mod wire;
pub mod message;
pub mod queue;
pub mod session;
pub mod supervisor;
pub mod bridge;
pub mod identity;
